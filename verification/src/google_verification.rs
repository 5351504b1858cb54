//! The bearer token verifier: from a provider-issued bearer token to a
//! verified identity.
//!
//! Verification is two-pass by design: a cheap unverified read of the
//! token's header yields the key identifier, the key cache resolves it
//! (refreshing once on a miss), and only then is the expensive
//! signature check made — with nothing from the unverified pass trusted
//! beyond the key identifier. `begin_validate` and `finish_validate`
//! are the two halves of that protocol around the one refresh the
//! boundary layer performs; their contracts pin when each outcome
//! occurs. Only the RSA-SHA256 signature check itself is taken on
//! trust, under the name `rs256_valid`.
//!
//! Byte constant 46 is the ASCII dot that separates token segments.

use vstd::prelude::*;

use crate::b64::{b64_decode, spec_b64_decode};
use crate::bytes::{bytes_eq, find_byte, lemma_find_byte, spec_find_byte, subrange_vec};
use crate::error::{ArgentError, ErrorStatus};
use crate::json_obj::{
    find_member, parse_obj_at, spec_find_member, spec_parse_obj, JsonVal, JsonValModel,
};
use crate::jwk::{lit_kid, lit_kid_vec, Jwks, KeyModel, SigningKey};
use crate::models::clone_bytes;

verus! {

/// The bytes of `alg`.
pub open spec fn lit_alg() -> Seq<u8> {
    seq![97u8, 108u8, 103u8]
}

/// The bytes of `RS256`.
pub open spec fn lit_rs256() -> Seq<u8> {
    seq![82u8, 83u8, 50u8, 53u8, 54u8]
}

/// The bytes of `email`.
pub open spec fn lit_email_claim() -> Seq<u8> {
    seq![101u8, 109u8, 97u8, 105u8, 108u8]
}

/// The bytes of `exp`.
pub open spec fn lit_exp_claim() -> Seq<u8> {
    seq![101u8, 120u8, 112u8]
}

fn lit_alg_vec() -> (r: Vec<u8>)
    ensures
        r@ == lit_alg(),
{
    let mut v: Vec<u8> = Vec::new();
    v.push(97);
    v.push(108);
    v.push(103);
    assert(v@ =~= lit_alg());
    v
}

fn lit_rs256_vec() -> (r: Vec<u8>)
    ensures
        r@ == lit_rs256(),
{
    let mut v: Vec<u8> = Vec::new();
    v.push(82);
    v.push(83);
    v.push(50);
    v.push(53);
    v.push(54);
    assert(v@ =~= lit_rs256());
    v
}

fn lit_email_claim_vec() -> (r: Vec<u8>)
    ensures
        r@ == lit_email_claim(),
{
    let mut v: Vec<u8> = Vec::new();
    v.push(101);
    v.push(109);
    v.push(97);
    v.push(105);
    v.push(108);
    assert(v@ =~= lit_email_claim());
    v
}

fn lit_exp_claim_vec() -> (r: Vec<u8>)
    ensures
        r@ == lit_exp_claim(),
{
    let mut v: Vec<u8> = Vec::new();
    v.push(101);
    v.push(120);
    v.push(112);
    assert(v@ =~= lit_exp_claim());
    v
}

/// Whether RSA-SHA256 verification under the public key with base64url
/// modulus `n` and exponent `e` accepts `sig` as a signature of `msg`.
/// A function of its four arguments alone; nothing further is assumed
/// about it.
pub uninterp spec fn rs256_valid(n: Seq<u8>, e: Seq<u8>, msg: Seq<u8>, sig: Seq<u8>) -> bool;

/// Relies on `jsonwebtoken::crypto::verify` with `Algorithm::RS256` and
/// `DecodingKey::from_rsa_components`: a deterministic check of the
/// signature text against the message under the key the components
/// describe, false whenever the components or the signature text are
/// unusable.
#[verifier::external_body]
fn rs256_verify(key: &SigningKey, msg: &Vec<u8>, sig: &Vec<u8>) -> (r: bool)
    ensures
        r == rs256_valid(key.n@, key.e@, msg@, sig@),
{
    let parts = (
        std::str::from_utf8(key.n.as_slice()),
        std::str::from_utf8(key.e.as_slice()),
        std::str::from_utf8(sig.as_slice()),
    );
    let (Ok(n), Ok(e), Ok(sig_str)) = parts else {
        return false;
    };
    let Ok(dk) = jsonwebtoken::DecodingKey::from_rsa_components(n, e) else {
        return false;
    };
    jsonwebtoken::crypto::verify(sig_str, msg.as_slice(), &dk, jsonwebtoken::Algorithm::RS256)
        .unwrap_or(false)
}

/// The positions of a bearer token's first two dots.
pub open spec fn spec_bearer_parts(t: Seq<u8>) -> Option<(int, int)> {
    match spec_find_byte(t, 0, 46) {
        Some(d1) => match spec_find_byte(t, d1 + 1, 46) {
            Some(d2) => Some((d1, d2)),
            None => None,
        },
        None => None,
    }
}

/// The members of a bearer token's header object, read without
/// verifying anything.
pub open spec fn spec_header_members(t: Seq<u8>) -> Option<Seq<(Seq<u8>, JsonValModel)>> {
    match spec_bearer_parts(t) {
        Some((d1, d2)) => match spec_b64_decode(t.subrange(0, d1)) {
            Some(hb) => match spec_parse_obj(hb, 0) {
                Some((ms, j)) => if j == hb.len() {
                    Some(ms)
                } else {
                    None
                },
                None => None,
            },
            None => None,
        },
        None => None,
    }
}

/// The key identifier a bearer token names, if its header carries one.
pub open spec fn spec_bearer_kid(t: Seq<u8>) -> Option<Seq<u8>> {
    match spec_header_members(t) {
        Some(ms) => match spec_find_member(ms, lit_kid()) {
            Some(JsonValModel::S(k)) => Some(k),
            _ => None,
        },
        None => None,
    }
}

/// Whether a bearer token's header names the RSA-SHA256 algorithm.
pub open spec fn spec_bearer_alg_rs256(t: Seq<u8>) -> bool {
    match spec_header_members(t) {
        Some(ms) => spec_find_member(ms, lit_alg()) == Some(JsonValModel::S(lit_rs256())),
        None => false,
    }
}

/// The members of a bearer token's payload object.
pub open spec fn spec_payload_members(t: Seq<u8>) -> Option<Seq<(Seq<u8>, JsonValModel)>> {
    match spec_bearer_parts(t) {
        Some((d1, d2)) => match spec_b64_decode(t.subrange(d1 + 1, d2)) {
            Some(pb) => match spec_parse_obj(pb, 0) {
                Some((ms, j)) => if j == pb.len() {
                    Some(ms)
                } else {
                    None
                },
                None => None,
            },
            None => None,
        },
        None => None,
    }
}

/// The `email` claim of a bearer token's payload.
pub open spec fn spec_bearer_email(t: Seq<u8>) -> Option<Seq<u8>> {
    match spec_payload_members(t) {
        Some(ms) => match spec_find_member(ms, lit_email_claim()) {
            Some(JsonValModel::S(em)) => Some(em),
            _ => None,
        },
        None => None,
    }
}

/// The `exp` claim of a bearer token's payload.
pub open spec fn spec_bearer_exp(t: Seq<u8>) -> Option<u64> {
    match spec_payload_members(t) {
        Some(ms) => match spec_find_member(ms, lit_exp_claim()) {
            Some(JsonValModel::N(x)) => Some(x),
            _ => None,
        },
        None => None,
    }
}

/// Whether `k` accepts the token's signature over its first two
/// segments.
pub open spec fn spec_bearer_sig_ok(t: Seq<u8>, k: KeyModel) -> bool {
    match spec_bearer_parts(t) {
        Some((d1, d2)) => rs256_valid(
            k.n,
            k.e,
            t.subrange(0, d2),
            t.subrange(d2 + 1, t.len() as int),
        ),
        None => false,
    }
}

/// Whether verification of `t` against key `k` at time `now` succeeds:
/// the header names RSA-SHA256, the key accepts the signature, an
/// `email` claim is present, and the token is not expired.
pub open spec fn spec_bearer_accepts(t: Seq<u8>, k: KeyModel, now: u64) -> bool {
    &&& spec_bearer_alg_rs256(t)
    &&& spec_bearer_sig_ok(t, k)
    &&& spec_bearer_email(t) is Some
    &&& match spec_bearer_exp(t) {
        Some(x) => now < x,
        None => false,
    }
}

/// Reads the key identifier from a bearer token's header, verifying
/// nothing else: the cheap identification pass.
pub fn token_key_id(token: &Vec<u8>) -> (r: Option<Vec<u8>>)
    ensures
        (r is Some) == (spec_bearer_kid(token@) is Some),
        r matches Some(k) ==> spec_bearer_kid(token@) == Some(k@),
{
    let d1o = find_byte(token, 0, 46);
    if d1o.is_none() {
        return None;
    }
    let d1 = d1o.unwrap();
    proof {
        lemma_find_byte(token@, 0, 46);
        assert(d1 < token.len());
    }
    let d2o = find_byte(token, d1 + 1, 46);
    if d2o.is_none() {
        return None;
    }
    let hb = subrange_vec(token, 0, d1);
    let dec = b64_decode(&hb);
    if dec.is_none() {
        return None;
    }
    let hbv = dec.unwrap();
    let po = parse_obj_at(&hbv, 0);
    if po.is_none() {
        return None;
    }
    let (ms, j) = po.unwrap();
    if j != hbv.len() {
        return None;
    }
    let kid_lit = lit_kid_vec();
    let m = find_member(&ms, &kid_lit);
    match m {
        Some(JsonVal::S(v)) => Some(clone_bytes(v)),
        _ => None,
    }
}

/// Verifies a bearer token against one resolved signing key: algorithm,
/// signature, `email` presence and expiry. Returns the verified email;
/// every failure is the same `Unauthorized`.
pub fn validate_with_key(token: &Vec<u8>, key: &SigningKey, now: u64) -> (r: Result<
    Vec<u8>,
    ArgentError,
>)
    ensures
        (r is Ok) == spec_bearer_accepts(token@, key@, now),
        r matches Ok(em) ==> spec_bearer_email(token@) == Some(em@),
        r is Err ==> r.unwrap_err().status == ErrorStatus::Unauthorized,
{
    let d1o = find_byte(token, 0, 46);
    if d1o.is_none() {
        return Err(ArgentError::unauthorized());
    }
    let d1 = d1o.unwrap();
    proof {
        lemma_find_byte(token@, 0, 46);
        assert(d1 < token.len());
    }
    let d2o = find_byte(token, d1 + 1, 46);
    if d2o.is_none() {
        return Err(ArgentError::unauthorized());
    }
    let d2 = d2o.unwrap();
    proof {
        lemma_find_byte(token@, d1 + 1, 46);
        assert(d2 < token.len());
    }
    let hb = subrange_vec(token, 0, d1);
    let hdec = b64_decode(&hb);
    if hdec.is_none() {
        return Err(ArgentError::unauthorized());
    }
    let hbv = hdec.unwrap();
    let hpo = parse_obj_at(&hbv, 0);
    if hpo.is_none() {
        return Err(ArgentError::unauthorized());
    }
    let (hms, hj) = hpo.unwrap();
    if hj != hbv.len() {
        return Err(ArgentError::unauthorized());
    }
    let alg_lit = lit_alg_vec();
    let rs256_lit = lit_rs256_vec();
    let alg_ok: bool = match find_member(&hms, &alg_lit) {
        Some(JsonVal::S(v)) => bytes_eq(v, &rs256_lit),
        _ => false,
    };
    if !alg_ok {
        return Err(ArgentError::unauthorized());
    }
    let msg = subrange_vec(token, 0, d2);
    let sig = subrange_vec(token, d2 + 1, token.len());
    if !rs256_verify(key, &msg, &sig) {
        return Err(ArgentError::unauthorized());
    }
    let pb = subrange_vec(token, d1 + 1, d2);
    let pdec = b64_decode(&pb);
    if pdec.is_none() {
        return Err(ArgentError::unauthorized());
    }
    let pbv = pdec.unwrap();
    let ppo = parse_obj_at(&pbv, 0);
    if ppo.is_none() {
        return Err(ArgentError::unauthorized());
    }
    let (pms, pj) = ppo.unwrap();
    if pj != pbv.len() {
        return Err(ArgentError::unauthorized());
    }
    let email_lit = lit_email_claim_vec();
    let email: Vec<u8> = match find_member(&pms, &email_lit) {
        Some(JsonVal::S(v)) => clone_bytes(v),
        _ => {
            return Err(ArgentError::unauthorized());
        },
    };
    let exp_lit = lit_exp_claim_vec();
    let exp: u64 = match find_member(&pms, &exp_lit) {
        Some(JsonVal::N(x)) => *x,
        _ => {
            return Err(ArgentError::unauthorized());
        },
    };
    if now >= exp {
        return Err(ArgentError::unauthorized());
    }
    Ok(email)
}

/// The outcome of the first verification pass against the current
/// cache state.
pub enum BearerStep {
    /// Verified: the token's email claim.
    Accept(Vec<u8>),
    /// The named key is not cached: refresh once, then finish.
    NeedsRefresh(Vec<u8>),
    /// Rejected; no refresh would help.
    Reject,
}

impl Jwks {
    /// The first verification pass: read the key identifier, and
    /// verify against the cached key if it is present. A refresh is
    /// asked for exactly when the token names a key the cache lacks.
    pub fn begin_validate(&self, token: &Vec<u8>, now: u64) -> (r: BearerStep)
        ensures
            ({
                let kid = spec_bearer_kid(token@);
                match r {
                    BearerStep::Accept(em) => kid matches Some(k) && self@.contains_key(k)
                        && spec_bearer_accepts(token@, self@[k], now) && spec_bearer_email(token@)
                        == Some(em@),
                    BearerStep::NeedsRefresh(k) => kid == Some(k@) && !self@.contains_key(k@),
                    BearerStep::Reject => match kid {
                        Some(k) => self@.contains_key(k) && !spec_bearer_accepts(
                            token@,
                            self@[k],
                            now,
                        ),
                        None => true,
                    },
                }
            }),
            (spec_bearer_kid(token@) matches Some(k) && self@.contains_key(k)
                && spec_bearer_accepts(token@, self@[k], now)) ==> (r matches BearerStep::Accept(
                em,
            ) && spec_bearer_email(token@) == Some(em@)),
    {
        let kido = token_key_id(token);
        if kido.is_none() {
            return BearerStep::Reject;
        }
        let kid = kido.unwrap();
        let keyo = self.lookup(&kid);
        match keyo {
            Some(key) => {
                let res = validate_with_key(token, &key, now);
                match res {
                    Ok(em) => BearerStep::Accept(em),
                    Err(_) => BearerStep::Reject,
                }
            },
            None => BearerStep::NeedsRefresh(kid),
        }
    }

    /// The second verification pass, after the one refresh: verify
    /// against the now-cached key, or fail with `Unauthorized` if the
    /// key set still lacks it. No further refresh is ever asked for.
    pub fn finish_validate(&self, token: &Vec<u8>, now: u64) -> (r: Result<Vec<u8>, ArgentError>)
        ensures
            ({
                let kid = spec_bearer_kid(token@);
                match r {
                    Ok(em) => kid matches Some(k) && self@.contains_key(k) && spec_bearer_accepts(
                        token@,
                        self@[k],
                        now,
                    ) && spec_bearer_email(token@) == Some(em@),
                    Err(e) => e.status == ErrorStatus::Unauthorized && match kid {
                        Some(k) => !self@.contains_key(k) || !spec_bearer_accepts(
                            token@,
                            self@[k],
                            now,
                        ),
                        None => true,
                    },
                }
            }),
    {
        let kido = token_key_id(token);
        if kido.is_none() {
            return Err(ArgentError::unauthorized());
        }
        let kid = kido.unwrap();
        let keyo = self.lookup(&kid);
        match keyo {
            Some(key) => validate_with_key(token, &key, now),
            None => Err(ArgentError::unauthorized()),
        }
    }
}

/// A verified provider identity: the email the provider vouches for.
pub struct AuthenticatedGoogleMail(pub Vec<u8>);

/// The bytes of `Bearer `, including its trailing space.
pub open spec fn lit_bearer() -> Seq<u8> {
    seq![66u8, 101u8, 97u8, 114u8, 101u8, 114u8, 32u8]
}

fn lit_bearer_vec() -> (r: Vec<u8>)
    ensures
        r@ == lit_bearer(),
{
    let mut v: Vec<u8> = Vec::new();
    v.push(66);
    v.push(101);
    v.push(97);
    v.push(114);
    v.push(101);
    v.push(114);
    v.push(32);
    assert(v@ =~= lit_bearer());
    v
}

/// An authorization header value with every leading `Bearer ` prefix
/// removed.
pub open spec fn spec_strip_bearer(s: Seq<u8>) -> Seq<u8>
    decreases s.len(),
{
    if s.len() >= 7 && s.subrange(0, 7) == lit_bearer() {
        spec_strip_bearer(s.skip(7))
    } else {
        s
    }
}

/// Extracts the bearer token from an `Authorization` header value: a
/// missing header is a `BadRequest`, and every leading `Bearer `
/// prefix of a present one is stripped.
pub fn extract_bearer(header: Option<&Vec<u8>>) -> (r: Result<Vec<u8>, ArgentError>)
    ensures
        header is None ==> r is Err && r.unwrap_err().status == ErrorStatus::BadRequest
            && r.unwrap_err().msg@ == "Missing google authorization bearer token"@,
        header matches Some(h) ==> r is Ok && r.unwrap()@ == spec_strip_bearer(h@),
{
    let h = match header {
        None => {
            return Err(
                ArgentError::bad_request_msg("Missing google authorization bearer token"),
            );
        },
        Some(h) => h,
    };
    let bearer = lit_bearer_vec();
    let start = bearer_strip_from(h, &bearer, 0);
    proof {
        assert(h@.skip(0) =~= h@);
    }
    let out = subrange_vec(h, start, h.len());
    proof {
        assert(out@ =~= h@.skip(start as int));
    }
    Ok(out)
}

/// The index after every leading `Bearer ` prefix from `start` on.
fn bearer_strip_from(h: &Vec<u8>, bearer: &Vec<u8>, start: usize) -> (r: usize)
    requires
        start <= h@.len(),
        bearer@ == lit_bearer(),
    ensures
        r <= h@.len(),
        spec_strip_bearer(h@.skip(r as int)) == spec_strip_bearer(h@.skip(start as int)),
        spec_strip_bearer(h@.skip(r as int)) == h@.skip(r as int),
    decreases h@.len() - start,
{
    let m = crate::json::expect_lit(h, start, bearer);
    if m.is_none() {
        proof {
            let rest = h@.skip(start as int);
            if rest.len() >= 7 && rest.subrange(0, 7) == lit_bearer() {
                assert(rest.subrange(0, 7) =~= h@.subrange(start as int, start as int + 7));
                assert(crate::json::spec_expect(h@, start as int, bearer@) is Some);
            }
            assert(spec_strip_bearer(rest) == rest);
        }
        start
    } else {
        proof {
            assert(crate::json::spec_expect(h@, start as int, bearer@) is Some);
            assert(bearer@.len() == 7);
            assert(start + 7 <= h@.len());
            assert(h@.subrange(start as int, start as int + 7) == lit_bearer());
            let rest = h@.skip(start as int);
            assert(rest.len() >= 7);
            assert(rest.subrange(0, 7) =~= h@.subrange(start as int, start as int + 7));
            assert(rest.skip(7) =~= h@.skip(start as int + 7));
            assert(spec_strip_bearer(rest) == spec_strip_bearer(h@.skip(start as int + 7)));
        }
        bearer_strip_from(h, bearer, start + 7)
    }
}

} // verus!
