//! The key cache: the identity provider's rotating public signing
//! keys, keyed by key identifier.
//!
//! `Jwks` owns the process-local mapping from key id to key. A refresh
//! parses the provider's key-set document and replaces the whole map in
//! one step, or on any failure leaves it untouched and surfaces the
//! error — a reader never observes a partial mixture of old and new
//! keys. There is no background refresh: rotation is discovered lazily,
//! by the one refresh a lookup miss triggers.
//!
//! Byte constants name ASCII characters: 34 `"`, 58 `:`, 44 `,`,
//! 91 `[`, 93 `]`, 123 `{`, 125 `}`.

use vstd::prelude::*;

use crate::bytes::bytes_eq;
use crate::error::{ArgentError, ErrorStatus};
use crate::json_obj::{
    members_view, parse_obj_at, spec_find_member, spec_parse_obj, spec_skip_ws, JsonMember,
    JsonVal, JsonValModel,
};
use crate::models::clone_bytes;

verus! {

/// One public signing key of the identity provider: key id, modulus
/// and exponent, each as base64url text.
#[derive(Debug)]
pub struct SigningKey {
    pub kid: Vec<u8>,
    pub n: Vec<u8>,
    pub e: Vec<u8>,
}

/// The mathematical value of a [`SigningKey`].
pub struct KeyModel {
    pub kid: Seq<u8>,
    pub n: Seq<u8>,
    pub e: Seq<u8>,
}

impl View for SigningKey {
    type V = KeyModel;

    open spec fn view(&self) -> KeyModel {
        KeyModel { kid: self.kid@, n: self.n@, e: self.e@ }
    }
}

impl Clone for SigningKey {
    fn clone(&self) -> (r: SigningKey)
        ensures
            r@ == self@,
    {
        SigningKey {
            kid: clone_bytes(&self.kid),
            n: clone_bytes(&self.n),
            e: clone_bytes(&self.e),
        }
    }
}

/// The bytes of `kid`.
pub open spec fn lit_kid() -> Seq<u8> {
    seq![107u8, 105u8, 100u8]
}

/// The bytes of `n`.
pub open spec fn lit_n() -> Seq<u8> {
    seq![110u8]
}

/// The bytes of `e`.
pub open spec fn lit_e() -> Seq<u8> {
    seq![101u8]
}

/// The bytes of `keys`.
pub open spec fn lit_keys() -> Seq<u8> {
    seq![107u8, 101u8, 121u8, 115u8]
}

pub fn lit_kid_vec() -> (r: Vec<u8>)
    ensures
        r@ == lit_kid(),
{
    let mut v: Vec<u8> = Vec::new();
    v.push(107);
    v.push(105);
    v.push(100);
    assert(v@ =~= lit_kid());
    v
}

fn lit_n_vec() -> (r: Vec<u8>)
    ensures
        r@ == lit_n(),
{
    let mut v: Vec<u8> = Vec::new();
    v.push(110);
    assert(v@ =~= lit_n());
    v
}

fn lit_e_vec() -> (r: Vec<u8>)
    ensures
        r@ == lit_e(),
{
    let mut v: Vec<u8> = Vec::new();
    v.push(101);
    assert(v@ =~= lit_e());
    v
}

fn lit_keys_vec() -> (r: Vec<u8>)
    ensures
        r@ == lit_keys(),
{
    let mut v: Vec<u8> = Vec::new();
    v.push(107);
    v.push(101);
    v.push(121);
    v.push(115);
    assert(v@ =~= lit_keys());
    v
}

/// The signing key a key-set entry's members describe: its `kid`, `n`
/// and `e` string members, all three required.
pub open spec fn spec_key_of_members(ms: Seq<(Seq<u8>, JsonValModel)>) -> Option<KeyModel> {
    match spec_find_member(ms, lit_kid()) {
        Some(JsonValModel::S(kid)) => match spec_find_member(ms, lit_n()) {
            Some(JsonValModel::S(n)) => match spec_find_member(ms, lit_e()) {
                Some(JsonValModel::S(e)) => Some(KeyModel { kid, n, e }),
                _ => None,
            },
            _ => None,
        },
        _ => None,
    }
}

fn key_of_members(ms: &Vec<JsonMember>) -> (r: Option<SigningKey>)
    ensures
        (r is Some) == (spec_key_of_members(members_view(ms@)) is Some),
        r matches Some(k) ==> spec_key_of_members(members_view(ms@)) == Some(k@),
{
    let kid_lit = lit_kid_vec();
    let n_lit = lit_n_vec();
    let e_lit = lit_e_vec();
    let kid_m = crate::json_obj::find_member(ms, &kid_lit);
    let kid: Vec<u8> = match kid_m {
        Some(JsonVal::S(v)) => clone_bytes(v),
        _ => {
            return None;
        },
    };
    let n_m = crate::json_obj::find_member(ms, &n_lit);
    let n: Vec<u8> = match n_m {
        Some(JsonVal::S(v)) => clone_bytes(v),
        _ => {
            return None;
        },
    };
    let e_m = crate::json_obj::find_member(ms, &e_lit);
    let e: Vec<u8> = match e_m {
        Some(JsonVal::S(v)) => clone_bytes(v),
        _ => {
            return None;
        },
    };
    Some(SigningKey { kid, n, e })
}

/// Parse of the key entries of the `keys` array, entered after `[` or
/// after a `,`. Every entry must describe a full signing key.
pub open spec fn spec_parse_key_list(s: Seq<u8>, i: int, fuel: nat) -> Option<
    (Seq<KeyModel>, int),
>
    decreases fuel,
{
    if fuel == 0 {
        None
    } else {
        match spec_parse_obj(s, i) {
            Some((ms, j)) => match spec_key_of_members(ms) {
                Some(k) => {
                    let j1 = spec_skip_ws(s, j);
                    if j1 < s.len() && s[j1] == 44 {
                        match spec_parse_key_list(s, j1 + 1, (fuel - 1) as nat) {
                            Some((rest, j2)) => Some((seq![k] + rest, j2)),
                            None => None,
                        }
                    } else if j1 < s.len() && s[j1] == 93 {
                        Some((seq![k], j1 + 1))
                    } else {
                        None
                    }
                },
                None => None,
            },
            None => None,
        }
    }
}

proof fn lemma_parse_obj_bounds(s: Seq<u8>, i: int)
    requires
        0 <= i,
        spec_parse_obj(s, i) is Some,
    ensures
        i < spec_parse_obj(s, i).unwrap().1 <= s.len(),
{
    let i0 = spec_skip_ws(s, i);
    if i <= s.len() {
        crate::json_obj::lemma_skip_ws(s, i);
    }
    let i1 = spec_skip_ws(s, i0 + 1);
    crate::json_obj::lemma_skip_ws(s, i0 + 1);
    if !(i1 < s.len() && s[i1] == 125) {
        crate::json_obj::lemma_members_bounds(
            s,
            i0 + 1,
            s.len() as nat + 1,
        );
    }
}

/// Key-list parsing is fuel-indifferent once the fuel covers the bytes
/// left.
proof fn lemma_key_list_fuel(s: Seq<u8>, i: int, f1: nat, f2: nat)
    requires
        0 <= i,
        f1 >= s.len() - i + 1,
        f2 >= s.len() - i + 1,
        f1 >= 1,
        f2 >= 1,
    ensures
        spec_parse_key_list(s, i, f1) == spec_parse_key_list(s, i, f2),
    decreases f1,
{
    match spec_parse_obj(s, i) {
        Some((ms, j)) => {
            lemma_parse_obj_bounds(s, i);
            match spec_key_of_members(ms) {
                Some(k) => {
                    let j1 = spec_skip_ws(s, j);
                    crate::json_obj::lemma_skip_ws(s, j);
                    if j1 < s.len() && s[j1] == 44 {
                        lemma_key_list_fuel(s, j1 + 1, (f1 - 1) as nat, (f2 - 1) as nat);
                    }
                },
                None => {},
            }
        },
        None => {},
    }
}

/// The recursion bound that key-list parsing from `i` never exhausts.
pub open spec fn key_list_fuel(s: Seq<u8>, i: int) -> nat {
    (s.len() - i + 1) as nat
}

fn parse_key_list_at(s: &Vec<u8>, entry: usize) -> (r: Option<(Vec<SigningKey>, usize)>)
    requires
        entry <= s@.len(),
    ensures
        (r is Some) == (spec_parse_key_list(s@, entry as int, key_list_fuel(s@, entry as int))
            is Some),
        r matches Some(p) ==> spec_parse_key_list(
            s@,
            entry as int,
            key_list_fuel(s@, entry as int),
        ) == Some((keys_view(p.0@), p.1 as int)) && p.1 <= s@.len(),
{
    let mut acc: Vec<SigningKey> = Vec::new();
    let mut cur: usize = entry;
    proof {
        assert(keys_view(acc@) =~= Seq::<KeyModel>::empty());
        if spec_parse_key_list(s@, entry as int, key_list_fuel(s@, entry as int)) is Some {
            let (rest, j) = spec_parse_key_list(
                s@,
                entry as int,
                key_list_fuel(s@, entry as int),
            ).unwrap();
            assert(keys_view(acc@) + rest =~= rest);
        }
    }
    loop
        invariant
            entry <= cur <= s@.len(),
            spec_parse_key_list(s@, entry as int, key_list_fuel(s@, entry as int)) == match
                spec_parse_key_list(s@, cur as int, key_list_fuel(s@, cur as int)) {
                Some((rest, j)) => Some((keys_view(acc@) + rest, j)),
                None => None::<(Seq<KeyModel>, int)>,
            },
        decreases s@.len() - cur,
    {
        let po = parse_obj_at(s, cur);
        if po.is_none() {
            return None;
        }
        let (ms, j) = po.unwrap();
        proof {
            lemma_parse_obj_bounds(s@, cur as int);
        }
        let ko = key_of_members(&ms);
        if ko.is_none() {
            return None;
        }
        let k = ko.unwrap();
        let ghost km: KeyModel = k@;
        let j1 = crate::json_obj::skip_ws(s, j);
        if j1 < s.len() && s[j1] == 44 {
            let ghost acc0: Seq<SigningKey> = acc@;
            let prev = cur;
            acc.push(k);
            cur = j1 + 1;
            proof {
                assert(keys_view(acc@) =~= keys_view(acc0) + seq![km]);
                lemma_key_list_fuel(
                    s@,
                    cur as int,
                    (key_list_fuel(s@, prev as int) - 1) as nat,
                    key_list_fuel(s@, cur as int),
                );
                if spec_parse_key_list(s@, cur as int, key_list_fuel(s@, cur as int)) is Some {
                    let (rest, j2) = spec_parse_key_list(
                        s@,
                        cur as int,
                        key_list_fuel(s@, cur as int),
                    ).unwrap();
                    assert(keys_view(acc0) + (seq![km] + rest) =~= keys_view(acc@) + rest);
                }
            }
        } else if j1 < s.len() && s[j1] == 93 {
            let ghost acc0: Seq<SigningKey> = acc@;
            acc.push(k);
            proof {
                assert(keys_view(acc@) =~= keys_view(acc0) + seq![km]);
            }
            return Some((acc, j1 + 1));
        } else {
            return None;
        }
    }
}

/// The key set a provider key-set document describes: an object with
/// one member `keys`, an array of key entries.
pub open spec fn spec_parse_jwks(s: Seq<u8>) -> Option<Seq<KeyModel>> {
    let i0 = spec_skip_ws(s, 0);
    if i0 >= s.len() || s[i0] != 123 {
        None
    } else {
        let i1 = spec_skip_ws(s, i0 + 1);
        if i1 >= s.len() || s[i1] != 34 {
            None
        } else {
            match crate::json_obj::spec_scan_jstr(s, i1 + 1) {
                Some((kraw, i2)) => {
                    if kraw != lit_keys() {
                        None
                    } else {
                        let i3 = spec_skip_ws(s, i2);
                        if i3 >= s.len() || s[i3] != 58 {
                            None
                        } else {
                            let i4 = spec_skip_ws(s, i3 + 1);
                            if i4 >= s.len() || s[i4] != 91 {
                                None
                            } else {
                                let i5 = spec_skip_ws(s, i4 + 1);
                                if i5 < s.len() && s[i5] == 93 {
                                    spec_parse_jwks_tail(s, Seq::empty(), i5 + 1)
                                } else {
                                    match spec_parse_key_list(
                                        s,
                                        i4 + 1,
                                        key_list_fuel(s, i4 + 1),
                                    ) {
                                        Some((ks, j)) => spec_parse_jwks_tail(s, ks, j),
                                        None => None,
                                    }
                                }
                            }
                        }
                    }
                },
                None => None,
            }
        }
    }
}

/// The closing of a key-set document after its array: `}` and then the
/// end of the input.
pub open spec fn spec_parse_jwks_tail(s: Seq<u8>, ks: Seq<KeyModel>, j: int) -> Option<
    Seq<KeyModel>,
> {
    let j1 = spec_skip_ws(s, j);
    if j1 >= s.len() || s[j1] != 125 {
        None
    } else {
        let j2 = spec_skip_ws(s, j1 + 1);
        if j2 == s.len() {
            Some(ks)
        } else {
            None
        }
    }
}

/// The key models of a vector of signing keys.
pub open spec fn keys_view(ks: Seq<SigningKey>) -> Seq<KeyModel> {
    ks.map_values(|k: SigningKey| k@)
}

/// Parses a provider key-set document into its signing keys, in order.
pub fn parse_jwks(s: &Vec<u8>) -> (r: Option<Vec<SigningKey>>)
    ensures
        (r is Some) == (spec_parse_jwks(s@) is Some),
        r matches Some(ks) ==> spec_parse_jwks(s@) == Some(keys_view(ks@)),
{
    let i0 = crate::json_obj::skip_ws(s, 0);
    if i0 >= s.len() || s[i0] != 123 {
        return None;
    }
    let i1 = crate::json_obj::skip_ws(s, i0 + 1);
    if i1 >= s.len() || s[i1] != 34 {
        return None;
    }
    let sj = crate::json_obj::scan_jstr(s, i1 + 1);
    if sj.is_none() {
        return None;
    }
    let (kraw, i2) = sj.unwrap();
    proof {
        crate::json_obj::lemma_scan_jstr_bounds(s@, i1 as int + 1);
    }
    let keys_lit = lit_keys_vec();
    if !bytes_eq(&kraw, &keys_lit) {
        return None;
    }
    let i3 = crate::json_obj::skip_ws(s, i2);
    if i3 >= s.len() || s[i3] != 58 {
        return None;
    }
    let i4 = crate::json_obj::skip_ws(s, i3 + 1);
    if i4 >= s.len() || s[i4] != 91 {
        return None;
    }
    let i5 = crate::json_obj::skip_ws(s, i4 + 1);
    if i5 < s.len() && s[i5] == 93 {
        let empty: Vec<SigningKey> = Vec::new();
        proof {
            assert(keys_view(empty@) =~= Seq::<KeyModel>::empty());
        }
        return parse_jwks_tail(s, empty, i5 + 1);
    }
    let kl = parse_key_list_at(s, i4 + 1);
    if kl.is_none() {
        return None;
    }
    let (ks, j) = kl.unwrap();
    parse_jwks_tail(s, ks, j)
}

fn parse_jwks_tail(s: &Vec<u8>, ks: Vec<SigningKey>, j: usize) -> (r: Option<Vec<SigningKey>>)
    requires
        j <= s@.len(),
    ensures
        (r is Some) == (spec_parse_jwks_tail(s@, keys_view(ks@), j as int) is Some),
        r matches Some(out) ==> spec_parse_jwks_tail(s@, keys_view(ks@), j as int) == Some(
            keys_view(out@),
        ),
{
    let j1 = crate::json_obj::skip_ws(s, j);
    if j1 >= s.len() || s[j1] != 125 {
        return None;
    }
    let j2 = crate::json_obj::skip_ws(s, j1 + 1);
    if j2 != s.len() {
        return None;
    }
    Some(ks)
}

/// The mapping a list of keys builds: key id to key, a later entry
/// replacing any earlier one with the same id.
pub open spec fn keys_map(ks: Seq<KeyModel>) -> Map<Seq<u8>, KeyModel>
    decreases ks.len(),
{
    if ks.len() == 0 {
        Map::empty()
    } else {
        keys_map(ks.drop_last()).insert(ks.last().kid, ks.last())
    }
}

/// The error of a key-set fetch that never reached a document: the
/// boundary layer reports the network failure it saw.
#[derive(Debug)]
pub struct FetchError {
    pub msg: String,
}

/// The process-local cache of the provider's signing keys.
#[derive(Debug)]
pub struct Jwks {
    keys: Vec<SigningKey>,
}

impl View for Jwks {
    type V = Map<Seq<u8>, KeyModel>;

    closed spec fn view(&self) -> Map<Seq<u8>, KeyModel> {
        keys_map(keys_view(self.keys@))
    }
}

impl Jwks {
    /// An empty cache; a refresh fills it.
    pub fn new() -> (r: Jwks)
        ensures
            r@ == Map::<Seq<u8>, KeyModel>::empty(),
    {
        let r = Jwks { keys: Vec::new() };
        proof {
            assert(keys_view(r.keys@) =~= Seq::<KeyModel>::empty());
        }
        r
    }

    /// A cache started from one key-set fetch, as process startup does
    /// it: the fetch outcome fills the cache, or its failure is
    /// surfaced and no cache exists.
    pub fn new_from_fetch(fetched: Result<Vec<u8>, FetchError>) -> (r: Result<Jwks, ArgentError>)
        ensures
            match fetched {
                Ok(body) => match spec_parse_jwks(body@) {
                    Some(ks) => r is Ok && r.unwrap()@ == keys_map(ks),
                    None => r is Err,
                },
                Err(_) => r is Err,
            },
            r is Err ==> r.unwrap_err().status == ErrorStatus::ServerError,
    {
        let mut cache = Self::new();
        match cache.apply_refresh(fetched) {
            Ok(_) => Ok(cache),
            Err(e) => Err(e),
        }
    }

    /// Looks up the signing key for a key identifier in the current
    /// state; a shared-access read, no refresh.
    pub fn lookup(&self, kid: &Vec<u8>) -> (r: Option<SigningKey>)
        ensures
            (r is Some) == self@.contains_key(kid@),
            r matches Some(k) ==> self@[kid@] == k@,
    {
        let ghost kv: Seq<KeyModel> = keys_view(self.keys@);
        let mut i: usize = self.keys.len();
        proof {
            assert(kv.take(kv.len() as int) =~= kv);
        }
        while i > 0
            invariant
                i <= self.keys@.len(),
                kv == keys_view(self.keys@),
                keys_map(kv).contains_key(kid@) == keys_map(kv.take(i as int)).contains_key(
                    kid@,
                ),
                keys_map(kv).contains_key(kid@) ==> keys_map(kv)[kid@] == keys_map(
                    kv.take(i as int),
                )[kid@],
            decreases i,
        {
            proof {
                assert(kv.take(i as int).drop_last() =~= kv.take(i as int - 1));
                assert(kv.take(i as int).last() == kv[i as int - 1]);
            }
            if bytes_eq(&self.keys[i - 1].kid, kid) {
                let k = self.keys[i - 1].clone();
                return Some(k);
            }
            i -= 1;
        }
        proof {
            assert(kv.take(0) =~= Seq::<KeyModel>::empty());
        }
        None
    }

    /// Applies the outcome of a key-set fetch in one exclusive step: on
    /// a fetched document that parses, the whole map is replaced by the
    /// document's keys; on a fetch failure or a document that does not
    /// parse, the map is left exactly as it was and the error is
    /// surfaced.
    pub fn apply_refresh(&mut self, fetched: Result<Vec<u8>, FetchError>) -> (r: Result<
        (),
        ArgentError,
    >)
        ensures
            match fetched {
                Ok(body) => match spec_parse_jwks(body@) {
                    Some(ks) => r is Ok && final(self)@ == keys_map(ks),
                    None => r is Err && final(self)@ == old(self)@ && r.unwrap_err().status
                        == ErrorStatus::ServerError,
                },
                Err(_) => r is Err && final(self)@ == old(self)@ && r.unwrap_err().status
                    == ErrorStatus::ServerError,
            },
    {
        match fetched {
            Ok(body) => {
                let parsed = parse_jwks(&body);
                match parsed {
                    Some(ks) => {
                        self.keys = ks;
                        Ok(())
                    },
                    None => Err(ArgentError::server_error()),
                }
            },
            Err(_) => Err(ArgentError::server_error()),
        }
    }
}

} // verus!
