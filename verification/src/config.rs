//! The configuration surface that the authentication core consumes.

use vstd::prelude::*;

verus! {

/// Process configuration for session authentication: the symmetric
/// signing key for session tokens, whether cookies are issued for a
/// cross-site (secure) deployment, and the session cookie's name.
#[derive(Debug)]
pub struct AuthenticationConfig {
    pub jwt_key: Vec<u8>,
    pub secure_cookie: bool,
    pub cookie_name: String,
}

impl AuthenticationConfig {
    pub fn new(jwt_key: Vec<u8>, secure_cookie: bool, cookie_name: String) -> (r:
        AuthenticationConfig)
        ensures
            r.jwt_key@ == jwt_key@,
            r.secure_cookie == secure_cookie,
            r.cookie_name@ == cookie_name@,
    {
        AuthenticationConfig { jwt_key, secure_cookie, cookie_name }
    }
}

} // verus!
