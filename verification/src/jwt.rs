//! The session token codec: issuing and parsing the first-party,
//! stateless session credential.
//!
//! A session token is `base64url(header).base64url(claims).signature`,
//! signed with HMAC-SHA256 under the process's symmetric key. The token
//! a user record and expiry produce is pinned exactly by
//! `spec_session_token`; `generate_token` returns it, and
//! `decode_token`'s contract states both directions: every unexpired
//! token of that form is accepted and returns its embedded record, and
//! whatever is accepted is such a token. Only the signature itself is
//! taken on trust, under the name `hs256_sig_of`.

use vstd::prelude::*;

use crate::b64::{
    b64_decode, b64_encode, lemma_b64_decode_of_encode, lemma_b64_encode_len,
    lemma_b64_encode_no_dot, lemma_b64_encode_of_decode, spec_b64_decode, spec_b64_encode,
};
use crate::bytes::{
    append_bytes, bytes_eq, find_byte, lemma_find_byte, lemma_find_is, spec_find_byte,
    subrange_vec,
};
use crate::claims::{
    claims_json_bytes, lemma_claims_complete, lemma_claims_sound, parse_claims, spec_claims_json,
    spec_parse_claims,
};
use crate::config::AuthenticationConfig;
use crate::error::{ArgentError, ErrorStatus};
use crate::models::{User, UserModel};

verus! {

/// The header of every session token: `{"typ":"JWT","alg":"HS256"}`.
pub open spec fn spec_header_json() -> Seq<u8> {
    seq![
        123u8,
        34u8,
        116u8,
        121u8,
        112u8,
        34u8,
        58u8,
        34u8,
        74u8,
        87u8,
        84u8,
        34u8,
        44u8,
        34u8,
        97u8,
        108u8,
        103u8,
        34u8,
        58u8,
        34u8,
        72u8,
        83u8,
        50u8,
        53u8,
        54u8,
        34u8,
        125u8,
    ]
}

fn header_json_vec() -> (r: Vec<u8>)
    ensures
        r@ == spec_header_json(),
{
    let mut v: Vec<u8> = Vec::new();
    v.push(123);
    v.push(34);
    v.push(116);
    v.push(121);
    v.push(112);
    v.push(34);
    v.push(58);
    v.push(34);
    v.push(74);
    v.push(87);
    v.push(84);
    v.push(34);
    v.push(44);
    v.push(34);
    v.push(97);
    v.push(108);
    v.push(103);
    v.push(34);
    v.push(58);
    v.push(34);
    v.push(72);
    v.push(83);
    v.push(50);
    v.push(53);
    v.push(54);
    v.push(34);
    v.push(125);
    assert(v@ =~= spec_header_json());
    v
}

/// The base64url text that HMAC-SHA256 under `key` signs `msg` to.
/// A function of its two arguments alone; nothing further is assumed
/// about its value.
pub uninterp spec fn hs256_sig_of(key: Seq<u8>, msg: Seq<u8>) -> Seq<u8>;

/// Relies on `jsonwebtoken::crypto::sign` with `Algorithm::HS256` and a
/// secret key: it returns the base64url-encoded HMAC-SHA256 tag of the
/// message, a deterministic function of key and message, and cannot
/// fail for a key built by `EncodingKey::from_secret`.
#[verifier::external_body]
fn hs256_sign(key: &Vec<u8>, msg: &Vec<u8>) -> (r: Vec<u8>)
    ensures
        r@ == hs256_sig_of(key@, msg@),
{
    let k = jsonwebtoken::EncodingKey::from_secret(key.as_slice());
    let sig = jsonwebtoken::crypto::sign(msg.as_slice(), &k, jsonwebtoken::Algorithm::HS256)
        .expect("HMAC signing of a secret key does not fail");
    sig.into_bytes()
}

/// The part of a session token that is signed: the encoded header and
/// encoded claims, joined by a dot.
pub open spec fn spec_signing_input(u: UserModel, e: u64) -> Seq<u8> {
    spec_b64_encode(spec_header_json()) + seq![46u8] + spec_b64_encode(spec_claims_json(u, e))
}

/// The one session token that embeds user record `u` with expiry `e`
/// under signing key `key`.
pub open spec fn spec_session_token(u: UserModel, e: u64, key: Seq<u8>) -> Seq<u8> {
    spec_signing_input(u, e) + seq![46u8] + hs256_sig_of(key, spec_signing_input(u, e))
}

/// The positions of the two structural dots of a session token, and
/// what its pieces are.
proof fn lemma_token_shape(u: UserModel, e: u64, key: Seq<u8>)
    ensures
        ({
            let h = spec_b64_encode(spec_header_json());
            let c = spec_b64_encode(spec_claims_json(u, e));
            let si = spec_signing_input(u, e);
            let t = spec_session_token(u, e, key);
            let d2 = h.len() + 1 + c.len();
            &&& h.len() == 36
            &&& si.len() == d2
            &&& t.len() == d2 + 1 + hs256_sig_of(key, si).len()
            &&& t[36] == 46
            &&& t[d2 as int] == 46
            &&& spec_find_byte(t, 0, 46) == Some(36int)
            &&& spec_find_byte(t, 37, 46) == Some(d2 as int)
            &&& t.subrange(0, 36) == h
            &&& t.subrange(0, d2 as int) == si
            &&& t.subrange(37, d2 as int) == c
            &&& t.subrange((d2 + 1) as int, t.len() as int) == hs256_sig_of(key, si)
        }),
{
    let h = spec_b64_encode(spec_header_json());
    let c = spec_b64_encode(spec_claims_json(u, e));
    let si = spec_signing_input(u, e);
    let sig = hs256_sig_of(key, si);
    let t = spec_session_token(u, e, key);
    let d2 = h.len() + 1 + c.len();
    lemma_b64_encode_len(spec_header_json());
    assert(spec_header_json().len() == 27);
    assert(h.len() == 36);
    assert(si.len() == d2);
    assert(t.len() == d2 + 1 + sig.len());
    assert(t[36] == 46);
    assert(t[d2 as int] == 46);
    lemma_b64_encode_no_dot(spec_header_json());
    lemma_b64_encode_no_dot(spec_claims_json(u, e));
    assert(forall|k: int| 0 <= k < 36 ==> t[k] == h[k]);
    assert(forall|k: int| 37 <= k < d2 ==> t[k] == c[k - 37]);
    lemma_find_is(t, 0, 36, 46);
    lemma_find_is(t, 37, d2 as int, 46);
    assert(t.subrange(0, 36) =~= h);
    assert(t.subrange(0, d2 as int) =~= si);
    assert(t.subrange(37, d2 as int) =~= c);
    assert(t.subrange((d2 + 1) as int, t.len() as int) =~= sig);
}

/// Issues the session token embedding `user` with expiry `exp`, signed
/// with the configured symmetric key.
pub fn generate_token(user: &User, auth_config: &AuthenticationConfig, exp: u64) -> (r: Vec<u8>)
    ensures
        r@ == spec_session_token(user@, exp, auth_config.jwt_key@),
{
    let header = header_json_vec();
    let eh = b64_encode(&header);
    let cl = claims_json_bytes(user, exp);
    let ec = b64_encode(&cl);
    let mut input: Vec<u8> = Vec::new();
    append_bytes(&mut input, &eh);
    input.push(46);
    append_bytes(&mut input, &ec);
    assert(input@ =~= spec_signing_input(user@, exp));
    let sig = hs256_sign(&auth_config.jwt_key, &input);
    let mut tok = input;
    tok.push(46);
    append_bytes(&mut tok, &sig);
    assert(tok@ =~= spec_session_token(user@, exp, auth_config.jwt_key@));
    tok
}

/// A token with no dot matches no issued token.
proof fn lemma_no_match_no_dot(t: Seq<u8>, key: Seq<u8>)
    requires
        spec_find_byte(t, 0, 46) is None,
    ensures
        forall|um: UserModel, ee: u64| t != spec_session_token(um, ee, key),
{
    assert forall|um: UserModel, ee: u64| t != spec_session_token(um, ee, key) by {
        if t == spec_session_token(um, ee, key) {
            lemma_token_shape(um, ee, key);
        }
    }
}

/// A token with no second dot matches no issued token.
proof fn lemma_no_match_one_dot(t: Seq<u8>, key: Seq<u8>, d1: int)
    requires
        spec_find_byte(t, 0, 46) == Some(d1),
        spec_find_byte(t, d1 + 1, 46) is None,
    ensures
        forall|um: UserModel, ee: u64| t != spec_session_token(um, ee, key),
{
    assert forall|um: UserModel, ee: u64| t != spec_session_token(um, ee, key) by {
        if t == spec_session_token(um, ee, key) {
            lemma_token_shape(um, ee, key);
            assert(d1 == 36);
        }
    }
}

/// A token whose first segment is not the canonical header matches no
/// issued token.
proof fn lemma_no_match_header(t: Seq<u8>, key: Seq<u8>, d1: int)
    requires
        spec_find_byte(t, 0, 46) == Some(d1),
        0 <= d1 <= t.len(),
        t.subrange(0, d1) != spec_b64_encode(spec_header_json()),
    ensures
        forall|um: UserModel, ee: u64| t != spec_session_token(um, ee, key),
{
    assert forall|um: UserModel, ee: u64| t != spec_session_token(um, ee, key) by {
        if t == spec_session_token(um, ee, key) {
            lemma_token_shape(um, ee, key);
            assert(d1 == 36);
        }
    }
}

/// A token whose trailing segment is not the signature of its first two
/// segments matches no issued token.
#[verifier::rlimit(100)]
#[verifier::spinoff_prover]
proof fn lemma_no_match_sig(t: Seq<u8>, key: Seq<u8>, d1: int, d2: int)
    requires
        spec_find_byte(t, 0, 46) == Some(d1),
        spec_find_byte(t, d1 + 1, 46) == Some(d2),
        0 <= d1 < d2 < t.len(),
        t.subrange(0, d1) == spec_b64_encode(spec_header_json()),
        t.subrange(d2 + 1, t.len() as int) != hs256_sig_of(key, t.subrange(0, d2)),
    ensures
        forall|um: UserModel, ee: u64| t != spec_session_token(um, ee, key),
{
    assert forall|um: UserModel, ee: u64| t != spec_session_token(um, ee, key) by {
        if t == spec_session_token(um, ee, key) {
            lemma_token_shape(um, ee, key);
            assert(d1 == 36);
            assert(d2 == spec_signing_input(um, ee).len());
        }
    }
}

/// A token whose middle segment is not a strict base64url encoding
/// matches no issued token.
#[verifier::rlimit(100)]
#[verifier::spinoff_prover]
proof fn lemma_no_match_payload(t: Seq<u8>, key: Seq<u8>, d1: int, d2: int)
    requires
        spec_find_byte(t, 0, 46) == Some(d1),
        spec_find_byte(t, d1 + 1, 46) == Some(d2),
        0 <= d1 < d2 < t.len(),
        spec_b64_decode(t.subrange(d1 + 1, d2)) is None,
    ensures
        forall|um: UserModel, ee: u64| t != spec_session_token(um, ee, key),
{
    assert forall|um: UserModel, ee: u64| t != spec_session_token(um, ee, key) by {
        if t == spec_session_token(um, ee, key) {
            lemma_token_shape(um, ee, key);
            assert(d1 == 36);
            assert(d2 == spec_signing_input(um, ee).len());
            assert(t.subrange(d1 + 1, d2) == spec_b64_encode(spec_claims_json(um, ee)));
            lemma_b64_decode_of_encode(spec_claims_json(um, ee));
        }
    }
}

/// A token whose decoded middle segment is not a claims document
/// matches no issued token.
#[verifier::rlimit(100)]
#[verifier::spinoff_prover]
proof fn lemma_no_match_claims(t: Seq<u8>, key: Seq<u8>, d1: int, d2: int, cb: Seq<u8>)
    requires
        spec_find_byte(t, 0, 46) == Some(d1),
        spec_find_byte(t, d1 + 1, 46) == Some(d2),
        0 <= d1 < d2 < t.len(),
        spec_b64_decode(t.subrange(d1 + 1, d2)) == Some(cb),
        spec_parse_claims(cb) is None,
    ensures
        forall|um: UserModel, ee: u64| t != spec_session_token(um, ee, key),
{
    assert forall|um: UserModel, ee: u64| t != spec_session_token(um, ee, key) by {
        if t == spec_session_token(um, ee, key) {
            lemma_token_shape(um, ee, key);
            assert(d1 == 36);
            assert(d2 == spec_signing_input(um, ee).len());
            assert(t.subrange(d1 + 1, d2) == spec_b64_encode(spec_claims_json(um, ee)));
            lemma_b64_decode_of_encode(spec_claims_json(um, ee));
            assert(cb == spec_claims_json(um, ee));
            lemma_claims_complete(um, ee);
        }
    }
}

/// The claims a token parses to are the only ones it can embed: any
/// match pins the user record and expiry to the parsed ones.
#[verifier::rlimit(100)]
#[verifier::spinoff_prover]
proof fn lemma_match_pins(t: Seq<u8>, key: Seq<u8>, d1: int, d2: int, cb: Seq<u8>, u0: UserModel, e0: u64)
    requires
        spec_find_byte(t, 0, 46) == Some(d1),
        spec_find_byte(t, d1 + 1, 46) == Some(d2),
        0 <= d1 < d2 < t.len(),
        spec_b64_decode(t.subrange(d1 + 1, d2)) == Some(cb),
        spec_parse_claims(cb) == Some((u0, e0)),
    ensures
        forall|um: UserModel, ee: u64|
            t == spec_session_token(um, ee, key) ==> um == u0 && ee == e0,
{
    assert forall|um: UserModel, ee: u64|
        t == spec_session_token(um, ee, key) implies um == u0 && ee == e0 by {
        lemma_token_shape(um, ee, key);
        assert(d1 == 36);
        assert(d2 == spec_signing_input(um, ee).len());
        assert(t.subrange(d1 + 1, d2) == spec_b64_encode(spec_claims_json(um, ee)));
        lemma_b64_decode_of_encode(spec_claims_json(um, ee));
        assert(cb == spec_claims_json(um, ee));
        lemma_claims_complete(um, ee);
    }
}

/// Splitting a byte string at two dot positions and rejoining it gives
/// it back.
proof fn lemma_recompose(t: Seq<u8>, d1: int, d2: int)
    requires
        0 <= d1 < d2 < t.len(),
        t[d1] == 46,
        t[d2] == 46,
    ensures
        t.subrange(0, d2) == t.subrange(0, d1) + seq![46u8] + t.subrange(d1 + 1, d2),
        t == t.subrange(0, d2) + seq![46u8] + t.subrange(d2 + 1, t.len() as int),
{
    assert(t.subrange(0, d2) =~= t.subrange(0, d1) + seq![46u8] + t.subrange(d1 + 1, d2));
    assert(t =~= t.subrange(0, d2) + seq![46u8] + t.subrange(d2 + 1, t.len() as int));
}

/// A token that passes every check is the issued token of what it
/// parses to.
#[verifier::rlimit(100)]
#[verifier::spinoff_prover]
proof fn lemma_token_sound(t: Seq<u8>, key: Seq<u8>, d1: int, d2: int, cb: Seq<u8>, u0: UserModel, e0: u64)
    requires
        spec_find_byte(t, 0, 46) == Some(d1),
        spec_find_byte(t, d1 + 1, 46) == Some(d2),
        0 <= d1 < d2 < t.len(),
        t.subrange(0, d1) == spec_b64_encode(spec_header_json()),
        t.subrange(d2 + 1, t.len() as int) == hs256_sig_of(key, t.subrange(0, d2)),
        spec_b64_decode(t.subrange(d1 + 1, d2)) == Some(cb),
        spec_parse_claims(cb) == Some((u0, e0)),
    ensures
        t == spec_session_token(u0, e0, key),
{
    lemma_find_byte(t, 0, 46);
    lemma_find_byte(t, d1 + 1, 46);
    assert(t[d1] == 46 && t[d2] == 46);
    lemma_recompose(t, d1, d2);
    lemma_claims_sound(cb);
    assert(cb == spec_claims_json(u0, e0));
    lemma_b64_encode_of_decode(t.subrange(d1 + 1, d2));
    assert(t.subrange(d1 + 1, d2) == spec_b64_encode(spec_claims_json(u0, e0)));
    assert(t.subrange(0, d2) == spec_signing_input(u0, e0));
    assert(t == spec_session_token(u0, e0, key));
}

/// Parses and validates a session token: checks the signature over the
/// exact canonical form and that the expiry has not passed (a token is
/// expired from the second of its `exp` on). Every failure is the same
/// `Unauthorized`, indistinguishable by design.
#[verifier::rlimit(100)]
#[verifier::spinoff_prover]
pub fn decode_token(token: &Vec<u8>, auth_config: &AuthenticationConfig, now: u64) -> (r: Result<
    User,
    ArgentError,
>)
    ensures
        forall|um: UserModel, ee: u64|
            #![trigger spec_session_token(um, ee, auth_config.jwt_key@)]
            token@ == spec_session_token(um, ee, auth_config.jwt_key@) && now < ee ==> r is Ok
                && r.unwrap()@ == um,
        forall|um: UserModel, ee: u64|
            #![trigger spec_session_token(um, ee, auth_config.jwt_key@)]
            token@ == spec_session_token(um, ee, auth_config.jwt_key@) && now >= ee ==> r is Err,
        r is Ok ==> exists|ee: u64|
            now < ee && token@ == spec_session_token(r.unwrap()@, ee, auth_config.jwt_key@),
        r is Err ==> r.unwrap_err().status == ErrorStatus::Unauthorized,
{
    let ghost key: Seq<u8> = auth_config.jwt_key@;
    let ghost t: Seq<u8> = token@;
    let d1opt = find_byte(token, 0, 46);
    if d1opt.is_none() {
        proof {
            lemma_no_match_no_dot(t, key);
        }
        return Err(ArgentError::unauthorized());
    }
    let d1 = d1opt.unwrap();
    proof {
        lemma_find_byte(t, 0, 46);
        assert(d1 < token.len());
    }
    let d2opt = find_byte(token, d1 + 1, 46);
    if d2opt.is_none() {
        proof {
            lemma_no_match_one_dot(t, key, d1 as int);
        }
        return Err(ArgentError::unauthorized());
    }
    let d2 = d2opt.unwrap();
    proof {
        lemma_find_byte(t, d1 + 1, 46);
        assert(d1 < d2 < token.len());
    }
    let header = header_json_vec();
    let hv = b64_encode(&header);
    let head_part = subrange_vec(token, 0, d1);
    if !bytes_eq(&head_part, &hv) {
        proof {
            lemma_no_match_header(t, key, d1 as int);
        }
        return Err(ArgentError::unauthorized());
    }
    let msg = subrange_vec(token, 0, d2);
    let sig_part = subrange_vec(token, d2 + 1, token.len());
    let expected = hs256_sign(&auth_config.jwt_key, &msg);
    if !bytes_eq(&expected, &sig_part) {
        proof {
            lemma_no_match_sig(t, key, d1 as int, d2 as int);
        }
        return Err(ArgentError::unauthorized());
    }
    let payload = subrange_vec(token, d1 + 1, d2);
    let decoded = b64_decode(&payload);
    if decoded.is_none() {
        proof {
            lemma_no_match_payload(t, key, d1 as int, d2 as int);
        }
        return Err(ArgentError::unauthorized());
    }
    let claims_bytes = decoded.unwrap();
    let parsed = parse_claims(&claims_bytes);
    if parsed.is_none() {
        proof {
            lemma_no_match_claims(t, key, d1 as int, d2 as int, claims_bytes@);
        }
        return Err(ArgentError::unauthorized());
    }
    let (user, exp) = parsed.unwrap();
    proof {
        lemma_match_pins(t, key, d1 as int, d2 as int, claims_bytes@, user@, exp);
    }
    if now >= exp {
        return Err(ArgentError::unauthorized());
    }
    let ghost um0: UserModel = user@;
    proof {
        lemma_token_sound(t, key, d1 as int, d2 as int, claims_bytes@, um0, exp);
    }
    let r: Result<User, ArgentError> = Ok(user);
    proof {
        assert(r.unwrap()@ == um0);
        assert(now < exp && t == spec_session_token(r.unwrap()@, exp, key));
        assert(exists|ee: u64| now < ee && t == spec_session_token(r.unwrap()@, ee, key));
    }
    r
}

} // verus!

