//! The session cookie: binding a session token to an HTTP cookie, and
//! the immediate-expiry cookie that clears it.
//!
//! The two builders always agree on name, path and security attributes
//! — `lemma_cookie_pair_shape` states that — so the expired cookie
//! overwrites the session cookie in the client instead of sitting
//! beside it. Cookies are `HttpOnly` always; `Secure` and `SameSite`
//! follow the deployment: cross-site deployments need `Secure` with
//! `SameSite=None`, same-site ones get strict isolation.

use vstd::prelude::*;

use crate::config::AuthenticationConfig;
use crate::jwt::{generate_token, spec_session_token};
use crate::models::{User, UserModel};

verus! {

/// The session's lifetime in whole seconds: thirty minutes.
pub const SESSION_TTL_SECONDS: u64 = 1800;

/// A cookie's `SameSite` attribute. `CrossSite` stands for the header
/// value `SameSite=None`, the value cross-site deployments require.
#[derive(Clone, Copy, PartialEq, Eq, Structural, Debug)]
pub enum SameSite {
    Strict,
    Lax,
    CrossSite,
}

/// The mathematical value of a [`Cookie`].
pub struct CookieModel {
    pub name: Seq<char>,
    pub value: Seq<u8>,
    pub http_only: bool,
    pub secure: bool,
    pub same_site: SameSite,
    pub path: Seq<char>,
    pub expires: u64,
}

/// An HTTP cookie as this core issues it: name, value, the attributes,
/// and an expiry as whole-second Unix time (`0` is the epoch origin,
/// the well-formed "delete this cookie" instruction).
#[derive(Debug)]
pub struct Cookie {
    pub name: String,
    pub value: Vec<u8>,
    pub http_only: bool,
    pub secure: bool,
    pub same_site: SameSite,
    pub path: String,
    pub expires: u64,
}

impl View for Cookie {
    type V = CookieModel;

    open spec fn view(&self) -> CookieModel {
        CookieModel {
            name: self.name@,
            value: self.value@,
            http_only: self.http_only,
            secure: self.secure,
            same_site: self.same_site,
            path: self.path@,
            expires: self.expires,
        }
    }
}

/// The `SameSite` attribute owed to a deployment: `SameSite=None` for
/// a secure cross-site deployment, strict isolation otherwise.
pub open spec fn spec_same_site_of(secure_cookie: bool) -> SameSite {
    if secure_cookie {
        SameSite::CrossSite
    } else {
        SameSite::Strict
    }
}

/// The cookie that carries a fresh session token for `user`.
pub open spec fn spec_auth_cookie(
    config_name: Seq<char>,
    config_secure: bool,
    key: Seq<u8>,
    user: UserModel,
    now: u64,
) -> CookieModel {
    CookieModel {
        name: config_name,
        value: spec_session_token(user, (now + SESSION_TTL_SECONDS) as u64, key),
        http_only: true,
        secure: config_secure,
        same_site: spec_same_site_of(config_secure),
        path: "/api/v1"@,
        expires: (now + SESSION_TTL_SECONDS) as u64,
    }
}

/// The cookie that clears a session: same name, path and attributes,
/// empty value, expiry at the epoch origin.
pub open spec fn spec_expired_cookie(config_name: Seq<char>, config_secure: bool) -> CookieModel {
    CookieModel {
        name: config_name,
        value: Seq::empty(),
        http_only: true,
        secure: config_secure,
        same_site: spec_same_site_of(config_secure),
        path: "/api/v1"@,
        expires: 0,
    }
}

/// Builds the session cookie for `user`: a fresh session token expiring
/// thirty minutes from `now`, with the cookie's own expiry matched to
/// the token's.
pub fn create_auth_cookie(config: &AuthenticationConfig, user: &User, now: u64) -> (r: Cookie)
    requires
        now + SESSION_TTL_SECONDS <= u64::MAX,
    ensures
        r@ == spec_auth_cookie(
            config.cookie_name@,
            config.secure_cookie,
            config.jwt_key@,
            user@,
            now,
        ),
{
    let exp = now + SESSION_TTL_SECONDS;
    let token = generate_token(user, config, exp);
    Cookie {
        name: config.cookie_name.clone(),
        value: token,
        http_only: true,
        secure: config.secure_cookie,
        same_site: if config.secure_cookie {
            SameSite::CrossSite
        } else {
            SameSite::Strict
        },
        path: path_vec(),
        expires: exp,
    }
}

/// Builds the logout cookie: empty value, expiry at the epoch origin,
/// and exactly the attributes of the session cookie.
pub fn create_expired_cookie(config: &AuthenticationConfig) -> (r: Cookie)
    ensures
        r@ == spec_expired_cookie(config.cookie_name@, config.secure_cookie),
{
    let r = Cookie {
        name: config.cookie_name.clone(),
        value: Vec::new(),
        http_only: true,
        secure: config.secure_cookie,
        same_site: if config.secure_cookie {
            SameSite::CrossSite
        } else {
            SameSite::Strict
        },
        path: path_vec(),
        expires: 0,
    };
    proof {
        assert(r.value@ =~= Seq::<u8>::empty());
    }
    r
}

fn path_vec() -> (r: String)
    ensures
        r@ == "/api/v1"@,
{
    let r = String::from_str("/api/v1");
    r
}

/// The two cookies of one configuration always share name, path and
/// security attributes; only value and expiry differ, the expired one
/// holding an empty value and the epoch origin. So the logout cookie
/// overwrites the session cookie rather than standing beside it.
pub proof fn lemma_cookie_pair_shape(
    config_name: Seq<char>,
    config_secure: bool,
    key: Seq<u8>,
    user: UserModel,
    now: u64,
)
    ensures
        ({
            let a = spec_auth_cookie(config_name, config_secure, key, user, now);
            let x = spec_expired_cookie(config_name, config_secure);
            &&& a.name == x.name
            &&& a.path == x.path
            &&& a.http_only == x.http_only
            &&& a.secure == x.secure
            &&& a.same_site == x.same_site
            &&& a.http_only == true
            &&& x.value == Seq::<u8>::empty()
            &&& x.expires == 0
        }),
{
}

/// Cookies carry `SameSite=None` exactly in secure (cross-site) mode
/// and `SameSite=Strict` otherwise, and are `HttpOnly` in both.
pub proof fn lemma_cookie_security_attributes(
    config_name: Seq<char>,
    config_secure: bool,
    key: Seq<u8>,
    user: UserModel,
    now: u64,
)
    ensures
        ({
            let a = spec_auth_cookie(config_name, config_secure, key, user, now);
            let x = spec_expired_cookie(config_name, config_secure);
            &&& a.same_site == (if config_secure {
                SameSite::CrossSite
            } else {
                SameSite::Strict
            })
            &&& x.same_site == a.same_site
            &&& a.secure == config_secure
            &&& a.http_only && x.http_only
        }),
{
}

} // verus!
