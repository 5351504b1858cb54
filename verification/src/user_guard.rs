//! The session resolver: from the request's session cookie to an
//! authenticated user.
//!
//! Route handlers consume only this: a missing cookie or a cookie that
//! does not carry a live session token yields `Unauthorized`, never a
//! partial success. The boundary layer reads the named cookie from the
//! request and hands its value here.

use vstd::prelude::*;

use crate::config::AuthenticationConfig;
use crate::error::{ArgentError, ErrorStatus};
use crate::jwt::{decode_token, spec_session_token};
use crate::models::{User, UserModel};

verus! {

/// Resolves the session cookie's value to the authenticated user:
/// absent cookie or dead token, `Unauthorized`.
pub fn get_user_from_cookie(
    cookie_value: Option<&Vec<u8>>,
    auth_config: &AuthenticationConfig,
    now: u64,
) -> (r: Result<User, ArgentError>)
    ensures
        cookie_value is None ==> r is Err && r.unwrap_err().status == ErrorStatus::Unauthorized
            && r.unwrap_err().msg@ == "No authentication cookie"@,
        r is Err ==> r.unwrap_err().status == ErrorStatus::Unauthorized,
        cookie_value matches Some(v) ==> {
            &&& forall|um: UserModel, ee: u64|
                #![trigger spec_session_token(um, ee, auth_config.jwt_key@)]
                v@ == spec_session_token(um, ee, auth_config.jwt_key@) && now < ee ==> r is Ok
                    && r.unwrap()@ == um
            &&& forall|um: UserModel, ee: u64|
                #![trigger spec_session_token(um, ee, auth_config.jwt_key@)]
                v@ == spec_session_token(um, ee, auth_config.jwt_key@) && now >= ee ==> r is Err
            &&& (r is Ok ==> exists|ee: u64|
                now < ee && v@ == spec_session_token(r.unwrap()@, ee, auth_config.jwt_key@))
        },
{
    match cookie_value {
        None => Err(ArgentError::unauthorized_msg("No authentication cookie")),
        Some(v) => decode_token(v, auth_config, now),
    }
}

/// An authenticated user, as the session resolver hands it to route
/// logic.
pub struct AuthenticatedUser(User);

impl View for AuthenticatedUser {
    type V = UserModel;

    closed spec fn view(&self) -> UserModel {
        self.0@
    }
}

impl AuthenticatedUser {
    /// Wraps a user the session resolver authenticated.
    pub fn from_user(user: User) -> (r: AuthenticatedUser)
        ensures
            r@ == user@,
    {
        AuthenticatedUser(user)
    }

    /// The authenticated user record.
    pub fn get(self) -> (r: User)
        ensures
            r@ == self@,
    {
        self.0
    }
}

} // verus!
