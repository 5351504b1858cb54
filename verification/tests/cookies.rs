use argent_auth::config::AuthenticationConfig;
use argent_auth::cookie::{create_auth_cookie, create_expired_cookie, SameSite, SESSION_TTL_SECONDS};
use argent_auth::jwt::decode_token;
use argent_auth::models::{User, UserRole};

fn config(secure: bool) -> AuthenticationConfig {
    AuthenticationConfig::new(b"cookie-test-key".to_vec(), secure, String::from("argent_session"))
}

fn bob() -> User {
    User {
        id: b"16fd2706-8baf-433b-82eb-8c7fada847da".to_vec(),
        name: b"Bob".to_vec(),
        email: b"bob@example.com".to_vec(),
        role: UserRole::User,
    }
}

#[test]
fn cookie_pair_shares_name_and_path() {
    for secure in [true, false] {
        let cfg = config(secure);
        let auth = create_auth_cookie(&cfg, &bob(), 1000);
        let gone = create_expired_cookie(&cfg);
        assert_eq!(auth.name, gone.name);
        assert_eq!(auth.path, gone.path);
        assert_eq!(auth.path, "/api/v1");
        assert_eq!(auth.secure, gone.secure);
        assert_eq!(auth.same_site, gone.same_site);
        assert_eq!(auth.http_only, gone.http_only);
    }
}

#[test]
fn expired_cookie_clears_the_session() {
    let cfg = config(true);
    let gone = create_expired_cookie(&cfg);
    assert!(gone.value.is_empty());
    assert_eq!(gone.expires, 0);
}

#[test]
fn secure_mode_picks_cross_site_none() {
    let cfg = config(true);
    let auth = create_auth_cookie(&cfg, &bob(), 1000);
    assert_eq!(auth.same_site, SameSite::CrossSite);
    assert!(auth.secure);
    assert!(auth.http_only);
}

#[test]
fn insecure_mode_picks_strict_isolation() {
    let cfg = config(false);
    let auth = create_auth_cookie(&cfg, &bob(), 1000);
    assert_eq!(auth.same_site, SameSite::Strict);
    assert!(!auth.secure);
    assert!(auth.http_only);
}

#[test]
fn cookie_expiry_matches_its_token() {
    let cfg = config(true);
    let now: u64 = 1700000000;
    let auth = create_auth_cookie(&cfg, &bob(), now);
    assert_eq!(auth.expires, now + SESSION_TTL_SECONDS);
    assert_eq!(auth.expires, now + 1800);
    // The carried token dies at the same second as the cookie.
    assert!(decode_token(&auth.value, &cfg, auth.expires - 1).is_ok());
    assert!(decode_token(&auth.value, &cfg, auth.expires).is_err());
}
