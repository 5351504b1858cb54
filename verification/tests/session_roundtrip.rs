use argent_auth::config::AuthenticationConfig;
use argent_auth::error::ErrorStatus;
use argent_auth::jwt::{decode_token, generate_token};
use argent_auth::models::{User, UserRole};

fn test_config() -> AuthenticationConfig {
    AuthenticationConfig::new(
        b"a-very-secret-signing-key".to_vec(),
        true,
        String::from("argent_session"),
    )
}

fn alice() -> User {
    User {
        id: b"6fa459ea-ee8a-3ca4-894e-db77e160355e".to_vec(),
        name: b"Alice Lidell".to_vec(),
        email: b"alice@example.com".to_vec(),
        role: UserRole::Admin,
    }
}

fn assert_same_user(a: &User, b: &User) {
    assert_eq!(a.id, b.id);
    assert_eq!(a.name, b.name);
    assert_eq!(a.email, b.email);
    assert!(matches!(
        (&a.role, &b.role),
        (UserRole::Admin, UserRole::Admin) | (UserRole::User, UserRole::User)
    ));
}

#[test]
fn issue_then_parse_round_trips() {
    let config = test_config();
    let user = alice();
    let now: u64 = 1700000000;
    let token = generate_token(&user, &config, now + 1800);
    let parsed = decode_token(&token, &config, now).expect("fresh token must parse");
    assert_same_user(&user, &parsed);
}

#[test]
fn round_trip_keeps_plain_user_role() {
    let config = test_config();
    let mut user = alice();
    user.role = UserRole::User;
    let token = generate_token(&user, &config, 2000);
    let parsed = decode_token(&token, &config, 1000).expect("fresh token must parse");
    assert!(matches!(parsed.role, UserRole::User));
}

#[test]
fn round_trip_escapes_awkward_text() {
    let config = test_config();
    let mut user = alice();
    user.name = b"A \"quoted\" name\twith\nbreaks \\ and backslash".to_vec();
    user.email = "weird\u{00e9}@example.com".as_bytes().to_vec();
    let token = generate_token(&user, &config, 2000);
    let parsed = decode_token(&token, &config, 1999).expect("escaped claims must round-trip");
    assert_eq!(parsed.name, user.name);
    assert_eq!(parsed.email, user.email);
}

#[test]
fn expired_token_is_rejected() {
    let config = test_config();
    let user = alice();
    let token = generate_token(&user, &config, 5000);
    let err = decode_token(&token, &config, 5001).unwrap_err();
    assert_eq!(err.status, ErrorStatus::Unauthorized);
}

#[test]
fn expiry_boundary_is_expired() {
    let config = test_config();
    let user = alice();
    let token = generate_token(&user, &config, 5000);
    // now == expiresAt means expired ...
    assert!(decode_token(&token, &config, 5000).is_err());
    // ... one second before, it is still live.
    assert!(decode_token(&token, &config, 4999).is_ok());
}

#[test]
fn tampered_token_is_rejected() {
    let config = test_config();
    let user = alice();
    let token = generate_token(&user, &config, 5000);
    for i in 0..token.len() {
        let mut bad = token.clone();
        bad[i] = if bad[i] == b'A' { b'B' } else { b'A' };
        if bad == token {
            continue;
        }
        assert!(
            decode_token(&bad, &config, 1000).is_err(),
            "byte {} flipped but token still accepted",
            i
        );
    }
}

#[test]
fn wrong_key_is_rejected() {
    let config = test_config();
    let other = AuthenticationConfig::new(
        b"another-signing-key".to_vec(),
        true,
        String::from("argent_session"),
    );
    let user = alice();
    let token = generate_token(&user, &config, 5000);
    let err = decode_token(&token, &other, 1000).unwrap_err();
    assert_eq!(err.status, ErrorStatus::Unauthorized);
}

#[test]
fn malformed_session_tokens_are_rejected_not_crashing() {
    let config = test_config();
    let samples: Vec<Vec<u8>> = vec![
        Vec::new(),
        b"not-a-token".to_vec(),
        b"a.b".to_vec(),
        b"a.b.c".to_vec(),
        b"..".to_vec(),
        b"...".to_vec(),
        vec![0xFF, 0x2E, 0x00, 0x2E, 0x01],
    ];
    for s in samples {
        let err = decode_token(&s, &config, 1000).unwrap_err();
        assert_eq!(err.status, ErrorStatus::Unauthorized);
    }
}

#[test]
fn issued_token_is_a_standard_signed_jwt() {
    // The token must verify and carry its claims under an independent
    // JWT implementation using the same secret.
    let secret = b"a-very-secret-signing-key";
    let config = test_config();
    let user = alice();
    let real_now = std::time::SystemTime::now()
        .duration_since(std::time::UNIX_EPOCH)
        .unwrap()
        .as_secs();
    let token = generate_token(&user, &config, real_now + 1800);
    let token_str = String::from_utf8(token).expect("token is ASCII");
    let decoded = jsonwebtoken::decode::<serde_json::Value>(
        &token_str,
        &jsonwebtoken::DecodingKey::from_secret(secret),
        &jsonwebtoken::Validation::new(jsonwebtoken::Algorithm::HS256),
    )
    .expect("independent implementation must accept the token");
    let claims = decoded.claims;
    assert_eq!(claims["exp"].as_u64().unwrap(), real_now + 1800);
    assert_eq!(claims["user"]["email"].as_str().unwrap(), "alice@example.com");
    assert_eq!(claims["user"]["name"].as_str().unwrap(), "Alice Lidell");
    assert_eq!(claims["user"]["role"].as_str().unwrap(), "Admin");
    assert_eq!(
        claims["user"]["id"].as_str().unwrap(),
        "6fa459ea-ee8a-3ca4-894e-db77e160355e"
    );
}

#[test]
fn a_token_signed_over_the_reference_layout_parses() {
    // Reproduce issuance as the reference stack would do it: the exact
    // claims layout, signed by jsonwebtoken over the framed segments.
    let secret = b"a-very-secret-signing-key";
    let config = test_config();
    let header = br#"{"typ":"JWT","alg":"HS256"}"#.to_vec();
    let mut claims =
        br#"{"exp":9999999999,"user":{"id":"6fa459ea-ee8a-3ca4-894e-db77e160355e","#.to_vec();
    claims.extend_from_slice(br#""name":"Alice Lidell","email":"alice@example.com","role":"Admin"}}"#);
    let mut input = argent_auth::b64::b64_encode(&header);
    input.push(b'.');
    input.extend_from_slice(&argent_auth::b64::b64_encode(&claims));
    let key = jsonwebtoken::EncodingKey::from_secret(secret);
    let sig = jsonwebtoken::crypto::sign(&input, &key, jsonwebtoken::Algorithm::HS256)
        .expect("signing must succeed");
    let mut token = input;
    token.push(b'.');
    token.extend_from_slice(sig.as_bytes());
    let parsed = decode_token(&token, &config, 1700000000).expect("reference token must parse");
    assert_eq!(parsed.email, b"alice@example.com".to_vec());
    assert_eq!(parsed.name, b"Alice Lidell".to_vec());
    assert!(matches!(parsed.role, UserRole::Admin));
}

#[test]
fn base64_transport_round_trips() {
    let cases: Vec<(&[u8], &str)> = vec![
        (b"", ""),
        (b"f", "Zg"),
        (b"fo", "Zm8"),
        (b"foo", "Zm9v"),
        (b"foob", "Zm9vYg"),
        (b"fooba", "Zm9vYmE"),
        (b"foobar", "Zm9vYmFy"),
    ];
    for (plain, encoded) in cases {
        let enc = argent_auth::b64::b64_encode(&plain.to_vec());
        assert_eq!(enc, encoded.as_bytes().to_vec());
        let dec = argent_auth::b64::b64_decode(&enc).expect("own encoding must decode");
        assert_eq!(dec, plain.to_vec());
    }
    // Padded and non-canonical forms are refused.
    assert!(argent_auth::b64::b64_decode(&b"Zg==".to_vec()).is_none());
    assert!(argent_auth::b64::b64_decode(&b"Zh".to_vec()).is_none());
    assert!(argent_auth::b64::b64_decode(&b"Z".to_vec()).is_none());
    assert!(argent_auth::b64::b64_decode(&b"Z!".to_vec()).is_none());
}
