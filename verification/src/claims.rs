//! The claims document of a session token.
//!
//! A session token signs one exact byte form of its claims: the expiry
//! as a whole-second timestamp and a verbatim copy of the user record,
//! laid out as `{"exp":E,"user":{"id":I,"name":N,"email":M,"role":R}}`
//! with canonical string escaping. `spec_claims_json` defines that form;
//! `spec_parse_claims` is its strict inverse, and the two lemmas at the
//! end prove the pair round-trips, so a claims document determines one
//! user record and expiry and each of those has one document.

use vstd::prelude::*;

use crate::json::{
    is_digit, lemma_parse_string_at, lemma_parse_string_sound, lemma_parse_u64_complete,
    lemma_parse_u64_sound, parse_str_body_at, parse_u64_at, expect_lit, json_escape_into,
    push_dec_u64, spec_dec_u64, spec_expect, spec_json_str, spec_parse_string, spec_parse_u64,
};
use crate::models::{User, UserModel, UserRole};

verus! {

/// The bytes of `{"exp":`.
pub open spec fn lit_exp() -> Seq<u8> {
    seq![123u8, 34u8, 101u8, 120u8, 112u8, 34u8, 58u8]
}

/// The bytes of `,"user":{"id":`.
pub open spec fn lit_user() -> Seq<u8> {
    seq![
        44u8,
        34u8,
        117u8,
        115u8,
        101u8,
        114u8,
        34u8,
        58u8,
        123u8,
        34u8,
        105u8,
        100u8,
        34u8,
        58u8,
    ]
}

/// The bytes of `,"name":`.
pub open spec fn lit_name() -> Seq<u8> {
    seq![44u8, 34u8, 110u8, 97u8, 109u8, 101u8, 34u8, 58u8]
}

/// The bytes of `,"email":`.
pub open spec fn lit_email() -> Seq<u8> {
    seq![44u8, 34u8, 101u8, 109u8, 97u8, 105u8, 108u8, 34u8, 58u8]
}

/// The bytes of `,"role":`.
pub open spec fn lit_role() -> Seq<u8> {
    seq![44u8, 34u8, 114u8, 111u8, 108u8, 101u8, 34u8, 58u8]
}

/// The bytes of `}}`.
pub open spec fn lit_end() -> Seq<u8> {
    seq![125u8, 125u8]
}

/// The bare word of a role: `Admin` or `User`.
pub open spec fn spec_role_bytes(r: UserRole) -> Seq<u8> {
    match r {
        UserRole::Admin => seq![65u8, 100u8, 109u8, 105u8, 110u8],
        UserRole::User => seq![85u8, 115u8, 101u8, 114u8],
    }
}

/// A role as a JSON string.
pub open spec fn spec_quoted_role(r: UserRole) -> Seq<u8> {
    seq![34u8] + spec_role_bytes(r) + seq![34u8]
}

/// The canonical claims document of a user record and an expiry.
pub open spec fn spec_claims_json(u: UserModel, e: u64) -> Seq<u8> {
    lit_exp() + spec_dec_u64(e) + lit_user() + spec_json_str(u.id) + lit_name() + spec_json_str(
        u.name,
    ) + lit_email() + spec_json_str(u.email) + lit_role() + spec_quoted_role(u.role) + lit_end()
}

/// Strict parse of a role string at `i`.
pub open spec fn spec_parse_role(s: Seq<u8>, i: int) -> Option<(UserRole, int)> {
    match spec_expect(s, i, spec_quoted_role(UserRole::Admin)) {
        Some(j) => Some((UserRole::Admin, j)),
        None => match spec_expect(s, i, spec_quoted_role(UserRole::User)) {
            Some(j) => Some((UserRole::User, j)),
            None => None,
        },
    }
}

/// Strict parse of a whole claims document: accepts exactly the byte
/// strings that `spec_claims_json` produces.
pub open spec fn spec_parse_claims(s: Seq<u8>) -> Option<(UserModel, u64)> {
    match spec_expect(s, 0, lit_exp()) {
        Some(i1) => match spec_parse_u64(s, i1) {
            Some((e, i2)) => match spec_expect(s, i2, lit_user()) {
                Some(i3) => match spec_parse_string(s, i3) {
                    Some((id, i4)) => match spec_expect(s, i4, lit_name()) {
                        Some(i5) => match spec_parse_string(s, i5) {
                            Some((name, i6)) => match spec_expect(s, i6, lit_email()) {
                                Some(i7) => match spec_parse_string(s, i7) {
                                    Some((email, i8)) => match spec_expect(s, i8, lit_role()) {
                                        Some(i9) => match spec_parse_role(s, i9) {
                                            Some((role, i10)) => match spec_expect(
                                                s,
                                                i10,
                                                lit_end(),
                                            ) {
                                                Some(i11) => if i11 == s.len() {
                                                    Some((UserModel { id, name, email, role }, e))
                                                } else {
                                                    None
                                                },
                                                None => None,
                                            },
                                            None => None,
                                        },
                                        None => None,
                                    },
                                    None => None,
                                },
                                None => None,
                            },
                            None => None,
                        },
                        None => None,
                    },
                    None => None,
                },
                None => None,
            },
            None => None,
        },
        None => None,
    }
}

/// Completeness: the canonical claims document of `(u, e)` parses back
/// to exactly `(u, e)`.
#[verifier::rlimit(100)]
#[verifier::spinoff_prover]
pub proof fn lemma_claims_complete(u: UserModel, e: u64)
    ensures
        spec_parse_claims(spec_claims_json(u, e)) == Some((u, e)),
{
    let s = spec_claims_json(u, e);
    let a0 = lit_exp();
    let a1 = spec_dec_u64(e);
    let a2 = lit_user();
    let a3 = spec_json_str(u.id);
    let a4 = lit_name();
    let a5 = spec_json_str(u.name);
    let a6 = lit_email();
    let a7 = spec_json_str(u.email);
    let a8 = lit_role();
    let a9 = spec_quoted_role(u.role);
    let a10 = lit_end();
    let o1 = a0.len() as int;
    let o2 = o1 + a1.len();
    let o3 = o2 + a2.len();
    let o4 = o3 + a3.len();
    let o5 = o4 + a4.len();
    let o6 = o5 + a5.len();
    let o7 = o6 + a6.len();
    let o8 = o7 + a7.len();
    let o9 = o8 + a8.len();
    let o10 = o9 + a9.len();
    let o11 = o10 + a10.len();
    assert(s.len() == o11);
    assert(s.subrange(0, o1) =~= a0);
    assert(s.subrange(o1, o2) =~= a1);
    assert(s.subrange(o2, o3) =~= a2);
    assert(s.subrange(o3, o4) =~= a3);
    assert(s.subrange(o4, o5) =~= a4);
    assert(s.subrange(o5, o6) =~= a5);
    assert(s.subrange(o6, o7) =~= a6);
    assert(s.subrange(o7, o8) =~= a7);
    assert(s.subrange(o8, o9) =~= a8);
    assert(s.subrange(o9, o10) =~= a9);
    assert(s.subrange(o10, o11) =~= a10);
    assert(spec_expect(s, 0, a0) == Some(o1));
    assert(s[o2] == 44) by {
        assert(s.subrange(o2, o3)[0] == a2[0]);
    }
    assert(!is_digit(s[o2]));
    lemma_parse_u64_complete(s, o1, e);
    assert(spec_parse_u64(s, o1) == Some((e, o2)));
    assert(spec_expect(s, o2, a2) == Some(o3));
    lemma_parse_string_at(s, o3, u.id);
    assert(spec_expect(s, o4, a4) == Some(o5));
    lemma_parse_string_at(s, o5, u.name);
    assert(spec_expect(s, o6, a6) == Some(o7));
    lemma_parse_string_at(s, o7, u.email);
    assert(spec_expect(s, o8, a8) == Some(o9));
    assert(spec_expect(s, o9, spec_quoted_role(u.role)) == Some(o10));
    match u.role {
        UserRole::Admin => {
            assert(spec_parse_role(s, o9) == Some((u.role, o10)));
        },
        UserRole::User => {
            let qa = spec_quoted_role(UserRole::Admin);
            assert(spec_expect(s, o9, qa) is None) by {
                if o9 + qa.len() <= s.len() {
                    assert(s.subrange(o9, o9 + qa.len() as int)[1] == s[o9 + 1]);
                    assert(s[o9 + 1] == 85) by {
                        assert(s.subrange(o9, o10)[1] == a9[1]);
                    }
                    assert(qa[1] == 65);
                }
            }
            assert(spec_parse_role(s, o9) == Some((u.role, o10)));
        },
    }
    assert(spec_expect(s, o10, a10) == Some(o11));
    assert(spec_parse_claims(s) == Some((UserModel { id: u.id, name: u.name, email: u.email, role: u.role }, e)));
    assert(UserModel { id: u.id, name: u.name, email: u.email, role: u.role } == u);
}

/// Soundness: a byte string that the claims parser accepts is the
/// canonical claims document of its result.
pub proof fn lemma_claims_sound(s: Seq<u8>)
    requires
        spec_parse_claims(s) is Some,
    ensures
        ({
            let (u, e) = spec_parse_claims(s).unwrap();
            s == spec_claims_json(u, e)
        }),
{
    let (u, e) = spec_parse_claims(s).unwrap();
    let i1 = spec_expect(s, 0, lit_exp()).unwrap();
    let (ev, i2) = spec_parse_u64(s, i1).unwrap();
    let i3 = spec_expect(s, i2, lit_user()).unwrap();
    let (id, i4) = spec_parse_string(s, i3).unwrap();
    let i5 = spec_expect(s, i4, lit_name()).unwrap();
    let (name, i6) = spec_parse_string(s, i5).unwrap();
    let i7 = spec_expect(s, i6, lit_email()).unwrap();
    let (email, i8) = spec_parse_string(s, i7).unwrap();
    let i9 = spec_expect(s, i8, lit_role()).unwrap();
    let (role, i10) = spec_parse_role(s, i9).unwrap();
    let i11 = spec_expect(s, i10, lit_end()).unwrap();
    assert(i11 == s.len());
    assert(ev == e && u == UserModel { id, name, email, role });
    lemma_parse_u64_sound(s, i1);
    lemma_parse_string_sound(s, i3);
    lemma_parse_string_sound(s, i5);
    lemma_parse_string_sound(s, i7);
    assert(s.subrange(0, i1) == lit_exp());
    assert(s.subrange(i1, i2) == spec_dec_u64(e));
    assert(s.subrange(i2, i3) == lit_user());
    assert(s.subrange(i3, i4) == spec_json_str(id));
    assert(s.subrange(i4, i5) == lit_name());
    assert(s.subrange(i5, i6) == spec_json_str(name));
    assert(s.subrange(i6, i7) == lit_email());
    assert(s.subrange(i7, i8) == spec_json_str(email));
    assert(s.subrange(i8, i9) == lit_role());
    match spec_expect(s, i9, spec_quoted_role(UserRole::Admin)) {
        Some(_) => {
            assert(role == UserRole::Admin);
            assert(s.subrange(i9, i10) == spec_quoted_role(role));
        },
        None => {
            assert(role == UserRole::User);
            assert(s.subrange(i9, i10) == spec_quoted_role(role));
        },
    }
    assert(s.subrange(i10, i11) == lit_end());
    assert(s =~= spec_claims_json(u, e)) by {
        let c = spec_claims_json(u, e);
        assert(forall|k: int| 0 <= k < i1 ==> s[k] == s.subrange(0, i1)[k]);
        assert(forall|k: int| i1 <= k < i2 ==> s[k] == s.subrange(i1, i2)[k - i1]);
        assert(forall|k: int| i2 <= k < i3 ==> s[k] == s.subrange(i2, i3)[k - i2]);
        assert(forall|k: int| i3 <= k < i4 ==> s[k] == s.subrange(i3, i4)[k - i3]);
        assert(forall|k: int| i4 <= k < i5 ==> s[k] == s.subrange(i4, i5)[k - i4]);
        assert(forall|k: int| i5 <= k < i6 ==> s[k] == s.subrange(i5, i6)[k - i5]);
        assert(forall|k: int| i6 <= k < i7 ==> s[k] == s.subrange(i6, i7)[k - i6]);
        assert(forall|k: int| i7 <= k < i8 ==> s[k] == s.subrange(i7, i8)[k - i7]);
        assert(forall|k: int| i8 <= k < i9 ==> s[k] == s.subrange(i8, i9)[k - i8]);
        assert(forall|k: int| i9 <= k < i10 ==> s[k] == s.subrange(i9, i10)[k - i9]);
        assert(forall|k: int| i10 <= k < i11 ==> s[k] == s.subrange(i10, i11)[k - i10]);
    }
}

fn lit_exp_vec() -> (r: Vec<u8>)
    ensures
        r@ == lit_exp(),
{
    let mut v: Vec<u8> = Vec::new();
    v.push(123);
    v.push(34);
    v.push(101);
    v.push(120);
    v.push(112);
    v.push(34);
    v.push(58);
    assert(v@ =~= lit_exp());
    v
}

fn lit_user_vec() -> (r: Vec<u8>)
    ensures
        r@ == lit_user(),
{
    let mut v: Vec<u8> = Vec::new();
    v.push(44);
    v.push(34);
    v.push(117);
    v.push(115);
    v.push(101);
    v.push(114);
    v.push(34);
    v.push(58);
    v.push(123);
    v.push(34);
    v.push(105);
    v.push(100);
    v.push(34);
    v.push(58);
    assert(v@ =~= lit_user());
    v
}

fn lit_name_vec() -> (r: Vec<u8>)
    ensures
        r@ == lit_name(),
{
    let mut v: Vec<u8> = Vec::new();
    v.push(44);
    v.push(34);
    v.push(110);
    v.push(97);
    v.push(109);
    v.push(101);
    v.push(34);
    v.push(58);
    assert(v@ =~= lit_name());
    v
}

fn lit_email_vec() -> (r: Vec<u8>)
    ensures
        r@ == lit_email(),
{
    let mut v: Vec<u8> = Vec::new();
    v.push(44);
    v.push(34);
    v.push(101);
    v.push(109);
    v.push(97);
    v.push(105);
    v.push(108);
    v.push(34);
    v.push(58);
    assert(v@ =~= lit_email());
    v
}

fn lit_role_vec() -> (r: Vec<u8>)
    ensures
        r@ == lit_role(),
{
    let mut v: Vec<u8> = Vec::new();
    v.push(44);
    v.push(34);
    v.push(114);
    v.push(111);
    v.push(108);
    v.push(101);
    v.push(34);
    v.push(58);
    assert(v@ =~= lit_role());
    v
}

fn lit_end_vec() -> (r: Vec<u8>)
    ensures
        r@ == lit_end(),
{
    let mut v: Vec<u8> = Vec::new();
    v.push(125);
    v.push(125);
    assert(v@ =~= lit_end());
    v
}

fn quoted_role_vec(role: UserRole) -> (r: Vec<u8>)
    ensures
        r@ == spec_quoted_role(role),
{
    let mut v: Vec<u8> = Vec::new();
    v.push(34);
    match role {
        UserRole::Admin => {
            v.push(65);
            v.push(100);
            v.push(109);
            v.push(105);
            v.push(110);
        },
        UserRole::User => {
            v.push(85);
            v.push(115);
            v.push(101);
            v.push(114);
        },
    }
    v.push(34);
    assert(v@ =~= spec_quoted_role(role));
    v
}

/// Builds the canonical claims document for a user record and expiry.
pub fn claims_json_bytes(user: &User, exp: u64) -> (r: Vec<u8>)
    ensures
        r@ == spec_claims_json(user@, exp),
{
    let mut out: Vec<u8> = Vec::new();
    let le = lit_exp_vec();
    crate::bytes::append_bytes(&mut out, &le);
    push_dec_u64(&mut out, exp);
    let lu = lit_user_vec();
    crate::bytes::append_bytes(&mut out, &lu);
    push_json_str(&mut out, &user.id);
    let ln = lit_name_vec();
    crate::bytes::append_bytes(&mut out, &ln);
    push_json_str(&mut out, &user.name);
    let lm = lit_email_vec();
    crate::bytes::append_bytes(&mut out, &lm);
    push_json_str(&mut out, &user.email);
    let lr = lit_role_vec();
    crate::bytes::append_bytes(&mut out, &lr);
    let qr = quoted_role_vec(user.role);
    crate::bytes::append_bytes(&mut out, &qr);
    let lz = lit_end_vec();
    crate::bytes::append_bytes(&mut out, &lz);
    assert(out@ =~= spec_claims_json(user@, exp));
    out
}

/// Appends a canonical JSON string for `s` to `out`.
fn push_json_str(out: &mut Vec<u8>, s: &Vec<u8>)
    ensures
        final(out)@ == old(out)@ + spec_json_str(s@),
{
    out.push(34);
    json_escape_into(out, s);
    out.push(34);
    assert(out@ =~= old(out)@ + spec_json_str(s@));
}

/// Strict parse of a claims document; accepts exactly the canonical
/// form and returns the embedded user record and expiry.
pub fn parse_claims(s: &Vec<u8>) -> (r: Option<(User, u64)>)
    ensures
        (r is Some) == (spec_parse_claims(s@) is Some),
        r matches Some(p) ==> spec_parse_claims(s@) == Some((p.0@, p.1)),
{
    let le = lit_exp_vec();
    let r1 = expect_lit(s, 0, &le);
    if r1.is_none() {
        return None;
    }
    let i1 = r1.unwrap();
    proof {
        assert(i1 <= s@.len());
    }
    let r2 = parse_u64_at(s, i1);
    if r2.is_none() {
        return None;
    }
    let (e, i2) = r2.unwrap();
    proof {
        lemma_parse_u64_sound(s@, i1 as int);
    }
    let lu = lit_user_vec();
    let r3 = expect_lit(s, i2, &lu);
    if r3.is_none() {
        return None;
    }
    let i3 = r3.unwrap();
    let r4 = parse_string_at(s, i3);
    if r4.is_none() {
        return None;
    }
    let (id, i4) = r4.unwrap();
    proof {
        lemma_parse_string_sound(s@, i3 as int);
    }
    let ln = lit_name_vec();
    let r5 = expect_lit(s, i4, &ln);
    if r5.is_none() {
        return None;
    }
    let i5 = r5.unwrap();
    let r6 = parse_string_at(s, i5);
    if r6.is_none() {
        return None;
    }
    let (name, i6) = r6.unwrap();
    proof {
        lemma_parse_string_sound(s@, i5 as int);
    }
    let lm = lit_email_vec();
    let r7 = expect_lit(s, i6, &lm);
    if r7.is_none() {
        return None;
    }
    let i7 = r7.unwrap();
    let r8 = parse_string_at(s, i7);
    if r8.is_none() {
        return None;
    }
    let (email, i8) = r8.unwrap();
    proof {
        lemma_parse_string_sound(s@, i7 as int);
    }
    let lr = lit_role_vec();
    let r9 = expect_lit(s, i8, &lr);
    if r9.is_none() {
        return None;
    }
    let i9 = r9.unwrap();
    let qa = quoted_role_vec(UserRole::Admin);
    let qu = quoted_role_vec(UserRole::User);
    let ra = expect_lit(s, i9, &qa);
    let role: UserRole;
    let i10: usize;
    if ra.is_some() {
        role = UserRole::Admin;
        i10 = ra.unwrap();
    } else {
        let ru = expect_lit(s, i9, &qu);
        if ru.is_none() {
            return None;
        }
        role = UserRole::User;
        i10 = ru.unwrap();
    }
    let lz = lit_end_vec();
    let rz = expect_lit(s, i10, &lz);
    if rz.is_none() {
        return None;
    }
    let i11 = rz.unwrap();
    if i11 != s.len() {
        return None;
    }
    Some((User { id, name, email, role }, e))
}

/// Strict parse of a whole JSON string (with its quotes) at `i`.
fn parse_string_at(s: &Vec<u8>, i: usize) -> (r: Option<(Vec<u8>, usize)>)
    requires
        i <= s@.len(),
    ensures
        (r is Some) == (spec_parse_string(s@, i as int) is Some),
        r matches Some(p) ==> spec_parse_string(s@, i as int) == Some((p.0@, p.1 as int)),
{
    if i >= s.len() || s[i] != 34 {
        return None;
    }
    parse_str_body_at(s, i + 1)
}

} // verus!
