//! Lenient parsing of flat JSON objects, byte level.
//!
//! The identity provider's documents — token headers, token payloads
//! and the key-set document — are JSON objects whose members are
//! scalars: strings, whole numbers, booleans and null. This module
//! parses that shape, tolerating whitespace and unknown members, and
//! failing (never crashing) on anything else. A string value written
//! with escape sequences, and a number that is not a plain `u64`, parse
//! to [`JsonVal::Other`]: consumed correctly but unusable, so a lookup
//! of such a member fails closed. `spec_parse_obj` is the whole truth
//! about the executable parser.
//!
//! Byte constants name ASCII characters: 34 `"`, 58 `:`, 44 `,`,
//! 123 `{`, 125 `}`, 92 `\`.

use vstd::prelude::*;

use crate::bytes::{find_byte, lemma_find_byte};
use crate::json::{is_digit, is_digit_b, parse_u64_at, spec_parse_u64};

verus! {

/// A scalar member value of a flat JSON object.
#[derive(Debug)]
pub enum JsonVal {
    /// A string without escape sequences, as its raw bytes.
    S(Vec<u8>),
    /// A whole number that fits a `u64`.
    N(u64),
    B(bool),
    Null,
    /// A value that was consumed but cannot be used: an escaped string
    /// or a number outside plain `u64` form.
    Other,
}

/// The mathematical value of a [`JsonVal`].
pub enum JsonValModel {
    S(Seq<u8>),
    N(u64),
    B(bool),
    Null,
    Other,
}

impl View for JsonVal {
    type V = JsonValModel;

    open spec fn view(&self) -> JsonValModel {
        match self {
            JsonVal::S(v) => JsonValModel::S(v@),
            JsonVal::N(n) => JsonValModel::N(*n),
            JsonVal::B(b) => JsonValModel::B(*b),
            JsonVal::Null => JsonValModel::Null,
            JsonVal::Other => JsonValModel::Other,
        }
    }
}

/// One member of a flat JSON object: raw key bytes and scalar value.
#[derive(Debug)]
pub struct JsonMember {
    pub key: Vec<u8>,
    pub val: JsonVal,
}

impl View for JsonMember {
    type V = (Seq<u8>, JsonValModel);

    open spec fn view(&self) -> (Seq<u8>, JsonValModel) {
        (self.key@, self.val@)
    }
}

/// The members of a vector of [`JsonMember`], as model pairs.
pub open spec fn members_view(ms: Seq<JsonMember>) -> Seq<(Seq<u8>, JsonValModel)> {
    ms.map_values(|m: JsonMember| m@)
}

pub open spec fn is_ws(c: u8) -> bool {
    c == 32 || c == 9 || c == 10 || c == 13
}

/// The first non-whitespace position at or after `i`.
pub open spec fn spec_skip_ws(s: Seq<u8>, i: int) -> int
    decreases s.len() - i,
{
    if 0 <= i && i < s.len() && is_ws(s[i]) {
        spec_skip_ws(s, i + 1)
    } else {
        i
    }
}

pub proof fn lemma_skip_ws(s: Seq<u8>, i: int)
    requires
        0 <= i <= s.len(),
    ensures
        i <= spec_skip_ws(s, i) <= s.len(),
    decreases s.len() - i,
{
    if i < s.len() && is_ws(s[i]) {
        lemma_skip_ws(s, i + 1);
    }
}

pub fn skip_ws(s: &Vec<u8>, i: usize) -> (r: usize)
    requires
        i <= s@.len(),
    ensures
        r as int == spec_skip_ws(s@, i as int),
        i <= r <= s@.len(),
{
    let mut cur: usize = i;
    while cur < s.len() && (s[cur] == 32 || s[cur] == 9 || s[cur] == 10 || s[cur] == 13)
        invariant
            i <= cur <= s@.len(),
            spec_skip_ws(s@, i as int) == spec_skip_ws(s@, cur as int),
        decreases s@.len() - cur,
    {
        cur += 1;
    }
    cur
}

/// Scan of a JSON string body from after the opening quote to its
/// closing quote, returning the raw content bytes with escape
/// sequences verbatim.
pub open spec fn spec_scan_jstr(s: Seq<u8>, i: int) -> Option<(Seq<u8>, int)>
    decreases s.len() - i,
{
    if i < 0 || i >= s.len() {
        None
    } else if s[i] == 34 {
        Some((Seq::empty(), i + 1))
    } else if s[i] == 92 {
        if i + 1 >= s.len() {
            None
        } else {
            match spec_scan_jstr(s, i + 2) {
                Some((t, j)) => Some((seq![s[i], s[i + 1]] + t, j)),
                None => None,
            }
        }
    } else {
        match spec_scan_jstr(s, i + 1) {
            Some((t, j)) => Some((seq![s[i]] + t, j)),
            None => None,
        }
    }
}

pub proof fn lemma_scan_jstr_bounds(s: Seq<u8>, i: int)
    requires
        0 <= i,
        spec_scan_jstr(s, i) is Some,
    ensures
        i < spec_scan_jstr(s, i).unwrap().1 <= s.len(),
    decreases s.len() - i,
{
    if s[i] == 34 {
    } else if s[i] == 92 {
        lemma_scan_jstr_bounds(s, i + 2);
    } else {
        lemma_scan_jstr_bounds(s, i + 1);
    }
}

pub fn scan_jstr(s: &Vec<u8>, start: usize) -> (r: Option<(Vec<u8>, usize)>)
    requires
        start <= s@.len(),
    ensures
        (r is Some) == (spec_scan_jstr(s@, start as int) is Some),
        r matches Some(p) ==> spec_scan_jstr(s@, start as int) == Some((p.0@, p.1 as int)),
{
    let mut acc: Vec<u8> = Vec::new();
    let mut cur: usize = start;
    proof {
        if spec_scan_jstr(s@, start as int) is Some {
            let (t, j) = spec_scan_jstr(s@, start as int).unwrap();
            assert(Seq::<u8>::empty() + t =~= t);
        }
    }
    loop
        invariant
            start <= cur <= s@.len(),
            spec_scan_jstr(s@, start as int) == match spec_scan_jstr(s@, cur as int) {
                Some((t, j)) => Some((acc@ + t, j)),
                None => None::<(Seq<u8>, int)>,
            },
        decreases s@.len() - cur,
    {
        if cur >= s.len() {
            return None;
        }
        let c = s[cur];
        if c == 34 {
            proof {
                assert(acc@ + Seq::<u8>::empty() =~= acc@);
            }
            return Some((acc, cur + 1));
        }
        if c == 92 {
            if s.len() - cur < 2 {
                return None;
            }
            let e = s[cur + 1];
            let ghost acc0: Seq<u8> = acc@;
            acc.push(c);
            acc.push(e);
            cur += 2;
            proof {
                if spec_scan_jstr(s@, cur as int) is Some {
                    let (t, j) = spec_scan_jstr(s@, cur as int).unwrap();
                    assert(acc0 + (seq![c, e] + t) =~= acc@ + t);
                }
            }
        } else {
            let ghost acc0: Seq<u8> = acc@;
            acc.push(c);
            cur += 1;
            proof {
                if spec_scan_jstr(s@, cur as int) is Some {
                    let (t, j) = spec_scan_jstr(s@, cur as int).unwrap();
                    assert(acc0 + (seq![c] + t) =~= acc@ + t);
                }
            }
        }
    }
}

/// Whether raw string content holds an escape sequence.
pub open spec fn has_backslash(raw: Seq<u8>) -> bool {
    exists|k: int| 0 <= k < raw.len() && raw[k] == 92
}

/// The value of a string member: its bytes, or `Other` when escaped.
pub open spec fn spec_jstr_val(raw: Seq<u8>) -> JsonValModel {
    if has_backslash(raw) {
        JsonValModel::Other
    } else {
        JsonValModel::S(raw)
    }
}

fn jstr_val(raw: Vec<u8>) -> (r: JsonVal)
    ensures
        r@ == spec_jstr_val(raw@),
{
    let f = find_byte(&raw, 0, 92);
    proof {
        lemma_find_byte(raw@, 0, 92);
    }
    if f.is_some() {
        JsonVal::Other
    } else {
        JsonVal::S(raw)
    }
}

/// Whether a byte can occur in a JSON number token.
pub open spec fn is_num_byte(c: u8) -> bool {
    is_digit(c) || c == 43 || c == 45 || c == 46 || c == 69 || c == 101
}

/// The end of the run of number bytes that starts at `i`.
pub open spec fn spec_num_run_end(s: Seq<u8>, i: int) -> int
    decreases s.len() - i,
{
    if 0 <= i && i < s.len() && is_num_byte(s[i]) {
        spec_num_run_end(s, i + 1)
    } else {
        i
    }
}

proof fn lemma_num_run(s: Seq<u8>, i: int)
    requires
        0 <= i <= s.len(),
    ensures
        i <= spec_num_run_end(s, i) <= s.len(),
    decreases s.len() - i,
{
    if i < s.len() && is_num_byte(s[i]) {
        lemma_num_run(s, i + 1);
    }
}

/// The value of a number token at `i`: its `u64` value when the whole
/// run is a canonical decimal, `Other` otherwise.
pub open spec fn spec_scan_num(s: Seq<u8>, i: int) -> (JsonValModel, int) {
    let j = spec_num_run_end(s, i);
    match spec_parse_u64(s, i) {
        Some((n, j2)) => if j2 == j {
            (JsonValModel::N(n), j)
        } else {
            (JsonValModel::Other, j)
        },
        None => (JsonValModel::Other, j),
    }
}

fn scan_num(s: &Vec<u8>, start: usize) -> (r: (JsonVal, usize))
    requires
        start <= s@.len(),
    ensures
        r.0@ == spec_scan_num(s@, start as int).0,
        r.1 as int == spec_scan_num(s@, start as int).1,
        start <= r.1 <= s@.len(),
{
    let mut j: usize = start;
    while j < s.len() && (is_digit_b(s[j]) || s[j] == 43 || s[j] == 45 || s[j] == 46 || s[j] == 69
        || s[j] == 101)
        invariant
            start <= j <= s@.len(),
            spec_num_run_end(s@, start as int) == spec_num_run_end(s@, j as int),
        decreases s@.len() - j,
    {
        j += 1;
    }
    let parsed = parse_u64_at(s, start);
    if parsed.is_some() {
        let (n, j2) = parsed.unwrap();
        if j2 == j {
            return (JsonVal::N(n), j);
        }
    }
    (JsonVal::Other, j)
}

/// Parse of one scalar value at `i` (no leading whitespace).
pub open spec fn spec_parse_value(s: Seq<u8>, i: int) -> Option<(JsonValModel, int)> {
    if i < 0 || i >= s.len() {
        None
    } else if s[i] == 34 {
        match spec_scan_jstr(s, i + 1) {
            Some((raw, j)) => Some((spec_jstr_val(raw), j)),
            None => None,
        }
    } else if s[i] == 116 {
        match crate::json::spec_expect(s, i, seq![116u8, 114u8, 117u8, 101u8]) {
            Some(j) => Some((JsonValModel::B(true), j)),
            None => None,
        }
    } else if s[i] == 102 {
        match crate::json::spec_expect(s, i, seq![102u8, 97u8, 108u8, 115u8, 101u8]) {
            Some(j) => Some((JsonValModel::B(false), j)),
            None => None,
        }
    } else if s[i] == 110 {
        match crate::json::spec_expect(s, i, seq![110u8, 117u8, 108u8, 108u8]) {
            Some(j) => Some((JsonValModel::Null, j)),
            None => None,
        }
    } else if is_num_byte(s[i]) && s[i] != 43 && s[i] != 46 && s[i] != 69 && s[i] != 101 {
        Some(spec_scan_num(s, i))
    } else {
        None
    }
}

pub proof fn lemma_parse_value_bounds(s: Seq<u8>, i: int)
    requires
        0 <= i,
        spec_parse_value(s, i) is Some,
    ensures
        i < spec_parse_value(s, i).unwrap().1 <= s.len(),
{
    if s[i] == 34 {
        lemma_scan_jstr_bounds(s, i + 1);
    } else if s[i] == 116 || s[i] == 102 || s[i] == 110 {
    } else {
        lemma_num_run(s, i);
        assert(spec_num_run_end(s, i) == spec_num_run_end(s, i + 1));
        lemma_num_run(s, i + 1);
        if spec_parse_u64(s, i) is Some {
            crate::json::lemma_parse_u64_sound(s, i);
        }
    }
}

fn true_vec() -> (r: Vec<u8>)
    ensures
        r@ == seq![116u8, 114u8, 117u8, 101u8],
{
    let mut v: Vec<u8> = Vec::new();
    v.push(116);
    v.push(114);
    v.push(117);
    v.push(101);
    assert(v@ =~= seq![116u8, 114u8, 117u8, 101u8]);
    v
}

fn false_vec() -> (r: Vec<u8>)
    ensures
        r@ == seq![102u8, 97u8, 108u8, 115u8, 101u8],
{
    let mut v: Vec<u8> = Vec::new();
    v.push(102);
    v.push(97);
    v.push(108);
    v.push(115);
    v.push(101);
    assert(v@ =~= seq![102u8, 97u8, 108u8, 115u8, 101u8]);
    v
}

fn null_vec() -> (r: Vec<u8>)
    ensures
        r@ == seq![110u8, 117u8, 108u8, 108u8],
{
    let mut v: Vec<u8> = Vec::new();
    v.push(110);
    v.push(117);
    v.push(108);
    v.push(108);
    assert(v@ =~= seq![110u8, 117u8, 108u8, 108u8]);
    v
}

fn parse_value(s: &Vec<u8>, i: usize) -> (r: Option<(JsonVal, usize)>)
    requires
        i <= s@.len(),
    ensures
        (r is Some) == (spec_parse_value(s@, i as int) is Some),
        r matches Some(p) ==> spec_parse_value(s@, i as int) == Some((p.0@, p.1 as int)) && i < p.1
            <= s@.len(),
{
    if i >= s.len() {
        return None;
    }
    let c = s[i];
    proof {
        if spec_parse_value(s@, i as int) is Some {
            lemma_parse_value_bounds(s@, i as int);
        }
    }
    if c == 34 {
        match scan_jstr(s, i + 1) {
            Some((raw, j)) => Some((jstr_val(raw), j)),
            None => None,
        }
    } else if c == 116 {
        let tv = true_vec();
        match crate::json::expect_lit(s, i, &tv) {
            Some(j) => Some((JsonVal::B(true), j)),
            None => None,
        }
    } else if c == 102 {
        let fv = false_vec();
        match crate::json::expect_lit(s, i, &fv) {
            Some(j) => Some((JsonVal::B(false), j)),
            None => None,
        }
    } else if c == 110 {
        let nv = null_vec();
        match crate::json::expect_lit(s, i, &nv) {
            Some(j) => Some((JsonVal::Null, j)),
            None => None,
        }
    } else if is_digit_b(c) || c == 45 {
        let (v, j) = scan_num(s, i);
        proof {
            lemma_num_run(s@, i as int);
            assert(spec_num_run_end(s@, i as int) == spec_num_run_end(s@, i as int + 1));
            lemma_num_run(s@, i as int + 1);
        }
        Some((v, j))
    } else {
        None
    }
}

/// Parse of the members of an object, entered just after `{` or after a
/// `,`: whitespace, a key string, `:`, a value, then `,` to continue or
/// `}` to close. `fuel` only bounds recursion; parsing never exhausts
/// it on inputs it accepts.
pub open spec fn spec_parse_members(s: Seq<u8>, i: int, fuel: nat) -> Option<
    (Seq<(Seq<u8>, JsonValModel)>, int),
>
    decreases fuel,
{
    if fuel == 0 {
        None
    } else {
        let i0 = spec_skip_ws(s, i);
        if i0 >= s.len() || s[i0] != 34 {
            None
        } else {
            match spec_scan_jstr(s, i0 + 1) {
                Some((kraw, i1)) => {
                    let i2 = spec_skip_ws(s, i1);
                    if i2 >= s.len() || s[i2] != 58 {
                        None
                    } else {
                        let i3 = spec_skip_ws(s, i2 + 1);
                        match spec_parse_value(s, i3) {
                            Some((v, i4)) => {
                                let i5 = spec_skip_ws(s, i4);
                                if i5 < s.len() && s[i5] == 44 {
                                    match spec_parse_members(s, i5 + 1, (fuel - 1) as nat) {
                                        Some((rest, j)) => Some(
                                            (seq![(kraw, v)] + rest, j),
                                        ),
                                        None => None,
                                    }
                                } else if i5 < s.len() && s[i5] == 125 {
                                    Some((seq![(kraw, v)], i5 + 1))
                                } else {
                                    None
                                }
                            },
                            None => None,
                        }
                    }
                },
                None => None,
            }
        }
    }
}

/// The recursion bound that member parsing from `i` can never exhaust.
pub open spec fn members_fuel(s: Seq<u8>, i: int) -> nat {
    (s.len() - i + 1) as nat
}

/// Member parsing is fuel-indifferent once the fuel covers the bytes
/// left: parsing consumes at least one byte for each unit spent.
proof fn lemma_members_fuel(s: Seq<u8>, i: int, f1: nat, f2: nat)
    requires
        0 <= i,
        f1 >= s.len() - i + 1,
        f2 >= s.len() - i + 1,
        f1 >= 1,
        f2 >= 1,
    ensures
        spec_parse_members(s, i, f1) == spec_parse_members(s, i, f2),
    decreases f1,
{
    let i0 = spec_skip_ws(s, i);
    if i > s.len() {
        assert(i0 == i);
    } else {
        lemma_skip_ws(s, i);
        if i0 < s.len() && s[i0] == 34 {
            match spec_scan_jstr(s, i0 + 1) {
                Some((kraw, i1)) => {
                    lemma_scan_jstr_bounds(s, i0 + 1);
                    let i2 = spec_skip_ws(s, i1);
                    lemma_skip_ws(s, i1);
                    if i2 < s.len() && s[i2] == 58 {
                        let i3 = spec_skip_ws(s, i2 + 1);
                        lemma_skip_ws(s, i2 + 1);
                        match spec_parse_value(s, i3) {
                            Some((v, i4)) => {
                                lemma_parse_value_bounds(s, i3);
                                let i5 = spec_skip_ws(s, i4);
                                lemma_skip_ws(s, i4);
                                if i5 < s.len() && s[i5] == 44 {
                                    assert(i5 + 1 > i);
                                    lemma_members_fuel(
                                        s,
                                        i5 + 1,
                                        (f1 - 1) as nat,
                                        (f2 - 1) as nat,
                                    );
                                }
                            },
                            None => {},
                        }
                    }
                },
                None => {},
            }
        }
    }
}

/// A successful member parse moves forward and stays in bounds.
pub proof fn lemma_members_bounds(s: Seq<u8>, i: int, fuel: nat)
    requires
        0 <= i,
        spec_parse_members(s, i, fuel) is Some,
    ensures
        i < spec_parse_members(s, i, fuel).unwrap().1 <= s.len(),
    decreases fuel,
{
    let i0 = spec_skip_ws(s, i);
    if i <= s.len() {
        lemma_skip_ws(s, i);
    }
    if 0 <= i0 < s.len() && s[i0] == 34 {
        match spec_scan_jstr(s, i0 + 1) {
            Some((kraw, i1)) => {
                lemma_scan_jstr_bounds(s, i0 + 1);
                let i2 = spec_skip_ws(s, i1);
                lemma_skip_ws(s, i1);
                if i2 < s.len() && s[i2] == 58 {
                    let i3 = spec_skip_ws(s, i2 + 1);
                    lemma_skip_ws(s, i2 + 1);
                    match spec_parse_value(s, i3) {
                        Some((v, i4)) => {
                            lemma_parse_value_bounds(s, i3);
                            let i5 = spec_skip_ws(s, i4);
                            lemma_skip_ws(s, i4);
                            if i5 < s.len() && s[i5] == 44 {
                                lemma_members_bounds(s, i5 + 1, (fuel - 1) as nat);
                            }
                        },
                        None => {},
                    }
                }
            },
            None => {},
        }
    }
}

/// Parse of a whole flat object at `i`: leading whitespace, `{`, the
/// members (possibly none), `}`.
pub open spec fn spec_parse_obj(s: Seq<u8>, i: int) -> Option<
    (Seq<(Seq<u8>, JsonValModel)>, int),
> {
    let i0 = spec_skip_ws(s, i);
    if i0 >= s.len() || s[i0] != 123 {
        None
    } else {
        let i1 = spec_skip_ws(s, i0 + 1);
        if i1 < s.len() && s[i1] == 125 {
            Some((Seq::empty(), i1 + 1))
        } else {
            spec_parse_members(s, i0 + 1, s.len() as nat + 1)
        }
    }
}

fn parse_members_at(s: &Vec<u8>, entry: usize) -> (r: Option<(Vec<JsonMember>, usize)>)
    requires
        entry <= s@.len(),
    ensures
        (r is Some) == (spec_parse_members(s@, entry as int, members_fuel(s@, entry as int))
            is Some),
        r matches Some(p) ==> spec_parse_members(s@, entry as int, members_fuel(s@, entry as int))
            == Some((members_view(p.0@), p.1 as int)) && p.1 <= s@.len(),
{
    let mut acc: Vec<JsonMember> = Vec::new();
    let mut cur: usize = entry;
    proof {
        assert(members_view(acc@) =~= Seq::<(Seq<u8>, JsonValModel)>::empty());
        if spec_parse_members(s@, entry as int, members_fuel(s@, entry as int)) is Some {
            let (rest, j) = spec_parse_members(
                s@,
                entry as int,
                members_fuel(s@, entry as int),
            ).unwrap();
            assert(members_view(acc@) + rest =~= rest);
        }
    }
    loop
        invariant
            entry <= cur <= s@.len(),
            spec_parse_members(s@, entry as int, members_fuel(s@, entry as int)) == match
                spec_parse_members(s@, cur as int, members_fuel(s@, cur as int)) {
                Some((rest, j)) => Some((members_view(acc@) + rest, j)),
                None => None::<(Seq<(Seq<u8>, JsonValModel)>, int)>,
            },
        decreases s@.len() - cur,
    {
        let ghost f: nat = members_fuel(s@, cur as int);
        proof {
            assert(f >= 1);
        }
        let i0 = skip_ws(s, cur);
        if i0 >= s.len() || s[i0] != 34 {
            return None;
        }
        let sj = scan_jstr(s, i0 + 1);
        if sj.is_none() {
            return None;
        }
        let (kraw, i1) = sj.unwrap();
        proof {
            lemma_scan_jstr_bounds(s@, i0 as int + 1);
            assert(i1 <= s@.len());
        }
        let i2 = skip_ws(s, i1);
        if i2 >= s.len() || s[i2] != 58 {
            return None;
        }
        let i3 = skip_ws(s, i2 + 1);
        let pv = parse_value(s, i3);
        if pv.is_none() {
            return None;
        }
        let (v, i4) = pv.unwrap();
        let i5 = skip_ws(s, i4);
        let ghost kv: (Seq<u8>, JsonValModel) = (kraw@, v@);
        if i5 < s.len() && s[i5] == 44 {
            let ghost acc0: Seq<JsonMember> = acc@;
            acc.push(JsonMember { key: kraw, val: v });
            let prev = cur;
            cur = i5 + 1;
            proof {
                assert(members_view(acc@) =~= members_view(acc0) + seq![kv]);
                lemma_members_fuel(
                    s@,
                    cur as int,
                    (members_fuel(s@, prev as int) - 1) as nat,
                    members_fuel(s@, cur as int),
                );
                if spec_parse_members(s@, cur as int, members_fuel(s@, cur as int)) is Some {
                    let (rest, j) = spec_parse_members(
                        s@,
                        cur as int,
                        members_fuel(s@, cur as int),
                    ).unwrap();
                    assert(members_view(acc0) + (seq![kv] + rest) =~= members_view(acc@) + rest);
                }
            }
        } else if i5 < s.len() && s[i5] == 125 {
            let ghost acc0: Seq<JsonMember> = acc@;
            acc.push(JsonMember { key: kraw, val: v });
            proof {
                assert(members_view(acc@) =~= members_view(acc0) + seq![kv]);
                assert(members_view(acc0) + seq![kv] =~= members_view(acc@));
            }
            return Some((acc, i5 + 1));
        } else {
            return None;
        }
    }
}

/// Parse of a whole flat JSON object starting at `i`, as the members in
/// order with raw keys.
pub fn parse_obj_at(s: &Vec<u8>, i: usize) -> (r: Option<(Vec<JsonMember>, usize)>)
    requires
        i <= s@.len(),
    ensures
        (r is Some) == (spec_parse_obj(s@, i as int) is Some),
        r matches Some(p) ==> spec_parse_obj(s@, i as int) == Some(
            (members_view(p.0@), p.1 as int),
        ) && p.1 <= s@.len(),
{
    let i0 = skip_ws(s, i);
    if i0 >= s.len() || s[i0] != 123 {
        return None;
    }
    let i1 = skip_ws(s, i0 + 1);
    if i1 < s.len() && s[i1] == 125 {
        let empty: Vec<JsonMember> = Vec::new();
        proof {
            assert(members_view(empty@) =~= Seq::<(Seq<u8>, JsonValModel)>::empty());
        }
        return Some((empty, i1 + 1));
    }
    let r = parse_members_at(s, i0 + 1);
    proof {
        lemma_members_fuel(
            s@,
            i0 as int + 1,
            members_fuel(s@, i0 as int + 1),
            s@.len() as nat + 1,
        );
    }
    r
}

/// The value of the first member named `key`.
pub open spec fn spec_find_member(ms: Seq<(Seq<u8>, JsonValModel)>, key: Seq<u8>) -> Option<
    JsonValModel,
>
    decreases ms.len(),
{
    if ms.len() == 0 {
        None
    } else if ms[0].0 == key {
        Some(ms[0].1)
    } else {
        spec_find_member(ms.skip(1), key)
    }
}

/// Looks up the first member named `key`.
pub fn find_member<'a>(ms: &'a Vec<JsonMember>, key: &Vec<u8>) -> (r: Option<&'a JsonVal>)
    ensures
        (r is Some) == (spec_find_member(members_view(ms@), key@) is Some),
        r matches Some(v) ==> spec_find_member(members_view(ms@), key@) == Some(v@),
{
    let ghost mv: Seq<(Seq<u8>, JsonValModel)> = members_view(ms@);
    let mut i: usize = 0;
    proof {
        assert(mv.skip(0) =~= mv);
    }
    while i < ms.len()
        invariant
            i <= ms@.len(),
            mv == members_view(ms@),
            spec_find_member(mv, key@) == spec_find_member(mv.skip(i as int), key@),
        decreases ms@.len() - i,
    {
        if crate::bytes::bytes_eq(&ms[i].key, key) {
            proof {
                assert(mv.skip(i as int)[0] == mv[i as int]);
            }
            return Some(&ms[i].val);
        }
        proof {
            assert(mv.skip(i as int)[0] == mv[i as int]);
            assert(mv.skip(i as int).skip(1) =~= mv.skip(i as int + 1));
        }
        i += 1;
    }
    None
}

} // verus!
