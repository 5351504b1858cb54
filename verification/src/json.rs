//! JSON string and number primitives, byte level.
//!
//! The session codec signs a canonical JSON document, so this module
//! fixes one exact byte form and proves it unambiguous. `spec_json_escape`
//! is the canonical string escaping (the two quote characters, backslash,
//! and control bytes only; lowercase hex); `spec_parse_str_body` is its
//! strict inverse and accepts nothing else. `spec_dec_u64` / `spec_parse_u64`
//! do the same for whole-second timestamps. The completeness and soundness
//! lemmas here carry the round-trip proof of the whole token codec.
//!
//! Byte constants name ASCII characters: 34 `"`, 92 `\`, 117 `u`.

use vstd::prelude::*;

verus! {

pub open spec fn is_digit(c: u8) -> bool {
    48 <= c && c <= 57
}

pub open spec fn is_hex_lower(c: u8) -> bool {
    (48 <= c && c <= 57) || (97 <= c && c <= 102)
}

/// The lowercase hex digit of a value below 16.
pub open spec fn hex_digit_of(v: u8) -> u8
    recommends
        v < 16,
{
    if v < 10 {
        (v + 48) as u8
    } else {
        (v + 87) as u8
    }
}

/// The value of a lowercase hex digit.
pub open spec fn hex_val_of(c: u8) -> u8
    recommends
        is_hex_lower(c),
{
    if 48 <= c && c <= 57 {
        (c - 48) as u8
    } else {
        (c - 87) as u8
    }
}

/// Whether a byte is escaped by the two-character shortcut `\b`, `\t`,
/// `\n`, `\f` or `\r`.
pub open spec fn is_shortcut_escaped(b: u8) -> bool {
    b == 8 || b == 9 || b == 10 || b == 12 || b == 13
}

/// The canonical escaping of one byte inside a JSON string: `"` and `\`
/// by their shortcuts, control bytes by shortcut or `\u00xx`, every
/// other byte by itself.
pub open spec fn esc_byte(b: u8) -> Seq<u8> {
    if b == 34 {
        seq![92u8, 34u8]
    } else if b == 92 {
        seq![92u8, 92u8]
    } else if b == 8 {
        seq![92u8, 98u8]
    } else if b == 9 {
        seq![92u8, 116u8]
    } else if b == 10 {
        seq![92u8, 110u8]
    } else if b == 12 {
        seq![92u8, 102u8]
    } else if b == 13 {
        seq![92u8, 114u8]
    } else if b < 32 {
        seq![92u8, 117u8, 48u8, 48u8, hex_digit_of(b >> 4), hex_digit_of(b & 15)]
    } else {
        seq![b]
    }
}

/// The canonical escaping of a whole byte string.
pub open spec fn spec_json_escape(s: Seq<u8>) -> Seq<u8>
    decreases s.len(),
{
    if s.len() == 0 {
        Seq::empty()
    } else {
        esc_byte(s[0]) + spec_json_escape(s.skip(1))
    }
}

/// A canonical JSON string: quote, escaped content, quote.
pub open spec fn spec_json_str(s: Seq<u8>) -> Seq<u8> {
    seq![34u8] + spec_json_escape(s) + seq![34u8]
}

/// The byte a canonical escape shortcut stands for, if `c` may follow
/// a backslash.
pub open spec fn unesc_shortcut(c: u8) -> Option<u8> {
    if c == 34 {
        Some(34u8)
    } else if c == 92 {
        Some(92u8)
    } else if c == 98 {
        Some(8u8)
    } else if c == 116 {
        Some(9u8)
    } else if c == 110 {
        Some(10u8)
    } else if c == 102 {
        Some(12u8)
    } else if c == 114 {
        Some(13u8)
    } else {
        None
    }
}

/// Strict parse of a JSON string body from `i` up to and including the
/// closing quote: accepts exactly the canonical escaping and returns
/// the unescaped bytes with the index after the closing quote.
pub open spec fn spec_parse_str_body(s: Seq<u8>, i: int) -> Option<(Seq<u8>, int)>
    decreases s.len() - i,
{
    if i < 0 || i >= s.len() {
        None
    } else if s[i] == 34 {
        Some((Seq::empty(), i + 1))
    } else if s[i] == 92 {
        if i + 1 >= s.len() {
            None
        } else if unesc_shortcut(s[i + 1]) is Some {
            match spec_parse_str_body(s, i + 2) {
                Some((t, j)) => Some((seq![unesc_shortcut(s[i + 1]).unwrap()] + t, j)),
                None => None,
            }
        } else if s[i + 1] == 117 {
            if i + 6 > s.len() {
                None
            } else if s[i + 2] == 48 && s[i + 3] == 48 && is_hex_lower(s[i + 4]) && is_hex_lower(
                s[i + 5],
            ) {
                let v = (hex_val_of(s[i + 4]) * 16 + hex_val_of(s[i + 5])) as u8;
                if v < 32 && !is_shortcut_escaped(v) && v != 34 && v != 92 {
                    match spec_parse_str_body(s, i + 6) {
                        Some((t, j)) => Some((seq![v] + t, j)),
                        None => None,
                    }
                } else {
                    None
                }
            } else {
                None
            }
        } else {
            None
        }
    } else if s[i] < 32 {
        None
    } else {
        match spec_parse_str_body(s, i + 1) {
            Some((t, j)) => Some((seq![s[i]] + t, j)),
            None => None,
        }
    }
}

/// Strict parse of a whole canonical JSON string starting at `i`.
pub open spec fn spec_parse_string(s: Seq<u8>, i: int) -> Option<(Seq<u8>, int)> {
    if 0 <= i && i < s.len() && s[i] == 34 {
        spec_parse_str_body(s, i + 1)
    } else {
        None
    }
}

proof fn lemma_hex_digit_roundtrip(v: u8)
    requires
        v < 16,
    ensures
        is_hex_lower(hex_digit_of(v)),
        hex_val_of(hex_digit_of(v)) == v,
{
}

proof fn lemma_hex_val_roundtrip(c: u8)
    requires
        is_hex_lower(c),
    ensures
        hex_val_of(c) < 16,
        hex_digit_of(hex_val_of(c)) == c,
{
}

proof fn lemma_low_byte_split(b: u8)
    requires
        b < 32,
    ensures
        b >> 4 < 16,
        b & 15 < 16,
        (b >> 4) * 16 + (b & 15) == b,
{
    assert(b < 32 ==> b >> 4 < 16 && b & 15 < 16 && (b >> 4) * 16 + (b & 15) == b)
        by (bit_vector);
}

proof fn lemma_low_byte_join(h: u8, l: u8)
    requires
        h < 16,
        l < 16,
    ensures
        (h * 16 + l) as u8 >> 4 == h,
        (h * 16 + l) as u8 & 15 == l,
{
    assert(h < 16 && l < 16 ==> ((h * 16 + l) as u8 >> 4 == h && (h * 16 + l) as u8 & 15 == l))
        by (bit_vector);
}

/// Completeness of the strict string parser: at a position holding the
/// canonical escaping of `v` followed by a closing quote, it returns
/// exactly `v`.
pub proof fn lemma_str_body_complete(s: Seq<u8>, i: int, v: Seq<u8>)
    requires
        0 <= i,
        i + spec_json_escape(v).len() + 1 <= s.len(),
        s.subrange(i, i + spec_json_escape(v).len() as int) == spec_json_escape(v),
        s[i + spec_json_escape(v).len() as int] == 34,
    ensures
        spec_parse_str_body(s, i) == Some((v, i + spec_json_escape(v).len() + 1)),
    decreases v.len(),
{
    let e = spec_json_escape(v);
    if v.len() == 0 {
        assert(e.len() == 0);
        assert(s[i] == 34);
    } else {
        let b = v[0];
        let eb = esc_byte(b);
        let erest = spec_json_escape(v.skip(1));
        assert(e == eb + erest);
        assert(forall|k: int| 0 <= k < eb.len() ==> s[i + k] == eb[k]) by {
            assert(forall|k: int| 0 <= k < eb.len() ==> e[k] == eb[k]);
            assert(forall|k: int| 0 <= k < e.len() ==> s[i + k] == e[k]);
        }
        let i2 = i + eb.len();
        assert(s.subrange(i2, i2 + erest.len() as int) =~= erest) by {
            assert(forall|k: int| 0 <= k < e.len() ==> s[i + k] == e[k]);
            assert(forall|k: int| 0 <= k < erest.len() ==> e[eb.len() + k] == erest[k]);
        }
        lemma_str_body_complete(s, i2, v.skip(1));
        if b == 34 || b == 92 || is_shortcut_escaped(b) {
            assert(s[i + 0] == eb[0] && s[i + 1] == eb[1]);
            assert(s[i] == 92);
            assert(unesc_shortcut(s[i + 1]) == Some(b));
            assert(seq![b] + v.skip(1) =~= v);
        } else if b < 32 {
            assert(s[i + 0] == eb[0] && s[i + 1] == eb[1] && s[i + 2] == eb[2] && s[i + 3] == eb[3]
                && s[i + 4] == eb[4] && s[i + 5] == eb[5]);
            assert(s[i] == 92 && s[i + 1] == 117 && s[i + 2] == 48 && s[i + 3] == 48);
            lemma_low_byte_split(b);
            lemma_hex_digit_roundtrip(b >> 4);
            lemma_hex_digit_roundtrip(b & 15);
            assert(s[i + 4] == hex_digit_of(b >> 4) && s[i + 5] == hex_digit_of(b & 15));
            assert((hex_val_of(s[i + 4]) * 16 + hex_val_of(s[i + 5])) as u8 == b);
            assert(seq![b] + v.skip(1) =~= v);
        } else {
            assert(s[i + 0] == eb[0]);
            assert(s[i] == b);
            assert(seq![b] + v.skip(1) =~= v);
        }
    }
}

/// Soundness of the strict string parser: whatever it accepts is the
/// canonical escaping of its result, closed by a quote.
pub proof fn lemma_str_body_sound(s: Seq<u8>, i: int)
    requires
        spec_parse_str_body(s, i) is Some,
    ensures
        ({
            let (v, j) = spec_parse_str_body(s, i).unwrap();
            &&& i < j <= s.len()
            &&& s.subrange(i, j - 1) == spec_json_escape(v)
            &&& s[j - 1] == 34
        }),
    decreases s.len() - i,
{
    let (v, j) = spec_parse_str_body(s, i).unwrap();
    if s[i] == 34 {
        assert(s.subrange(i, i as int) =~= spec_json_escape(v));
    } else if s[i] == 92 {
        if unesc_shortcut(s[i + 1]) is Some {
            let b = unesc_shortcut(s[i + 1]).unwrap();
            let (t, j2) = spec_parse_str_body(s, i + 2).unwrap();
            lemma_str_body_sound(s, i + 2);
            assert(esc_byte(b) =~= seq![s[i], s[i + 1]]);
            assert(v == seq![b] + t);
            assert(v.skip(1) =~= t);
            assert(v[0] == b);
            assert(s.subrange(i, j - 1) =~= esc_byte(b) + s.subrange(i + 2, j - 1));
        } else {
            let h = s[i + 4];
            let l = s[i + 5];
            let b = (hex_val_of(h) * 16 + hex_val_of(l)) as u8;
            lemma_hex_val_roundtrip(h);
            lemma_hex_val_roundtrip(l);
            lemma_low_byte_join(hex_val_of(h), hex_val_of(l));
            assert(hex_digit_of(b >> 4) == h && hex_digit_of(b & 15) == l);
            assert(esc_byte(b) =~= seq![92u8, 117u8, 48u8, 48u8, h, l]);
            let (t, j2) = spec_parse_str_body(s, i + 6).unwrap();
            lemma_str_body_sound(s, i + 6);
            assert(v == seq![b] + t);
            assert(v.skip(1) =~= t);
            assert(v[0] == b);
            assert(s.subrange(i, j - 1) =~= esc_byte(b) + s.subrange(i + 6, j - 1));
        }
    } else {
        let (t, j2) = spec_parse_str_body(s, i + 1).unwrap();
        lemma_str_body_sound(s, i + 1);
        assert(v == seq![s[i]] + t);
        assert(v.skip(1) =~= t);
        assert(v[0] == s[i]);
        assert(esc_byte(s[i]) =~= seq![s[i]]);
        assert(s.subrange(i, j - 1) =~= esc_byte(s[i]) + s.subrange(i + 1, j - 1));
    }
}

/// Completeness of the whole-string parser: at a position holding the
/// canonical JSON string of `v`, it returns exactly `v`.
pub proof fn lemma_parse_string_at(s: Seq<u8>, i: int, v: Seq<u8>)
    requires
        0 <= i,
        i + spec_json_str(v).len() <= s.len(),
        s.subrange(i, i + spec_json_str(v).len() as int) == spec_json_str(v),
    ensures
        spec_parse_string(s, i) == Some((v, i + spec_json_str(v).len() as int)),
{
    let q = spec_json_str(v);
    let e = spec_json_escape(v);
    assert(q.len() == e.len() + 2);
    assert(forall|k: int| 0 <= k < q.len() ==> s[i + k] == q[k]);
    assert(q[0] == 34);
    assert(s[i] == 34);
    assert(s.subrange(i + 1, i + 1 + e.len() as int) =~= e) by {
        assert(forall|k: int| 0 <= k < e.len() ==> q[1 + k] == e[k]);
    }
    assert(s[i + 1 + e.len() as int] == 34) by {
        assert(q[q.len() - 1] == 34);
    }
    lemma_str_body_complete(s, i + 1, v);
}

/// Soundness of the whole-string parser: whatever it accepts occupies
/// exactly the canonical JSON string of its result.
pub proof fn lemma_parse_string_sound(s: Seq<u8>, i: int)
    requires
        spec_parse_string(s, i) is Some,
    ensures
        ({
            let (v, j) = spec_parse_string(s, i).unwrap();
            &&& i < j <= s.len()
            &&& j == i + spec_json_str(v).len()
            &&& s.subrange(i, j) == spec_json_str(v)
        }),
{
    let (v, j) = spec_parse_string(s, i).unwrap();
    lemma_str_body_sound(s, i + 1);
    let e = spec_json_escape(v);
    assert(s.subrange(i + 1, j - 1) == e);
    assert(forall|k: int| 0 <= k < e.len() ==> s[i + 1 + k] == e[k]) by {
        assert(forall|k: int| 0 <= k < e.len() ==> s.subrange(i + 1, j - 1)[k] == e[k]);
    }
    assert(s.subrange(i, j) =~= spec_json_str(v));
}

/// The end of the run of decimal digits that starts at `i`.
pub open spec fn spec_digit_run_end(s: Seq<u8>, i: int) -> int
    decreases s.len() - i,
{
    if 0 <= i && i < s.len() && is_digit(s[i]) {
        spec_digit_run_end(s, i + 1)
    } else {
        i
    }
}

pub proof fn lemma_digit_run(s: Seq<u8>, i: int)
    requires
        0 <= i <= s.len(),
    ensures
        i <= spec_digit_run_end(s, i) <= s.len(),
        forall|k: int| i <= k < spec_digit_run_end(s, i) ==> is_digit(s[k]),
        spec_digit_run_end(s, i) < s.len() ==> !is_digit(s[spec_digit_run_end(s, i)]),
    decreases s.len() - i,
{
    if i < s.len() && is_digit(s[i]) {
        lemma_digit_run(s, i + 1);
    }
}

/// The value of a digit string, most significant first.
pub open spec fn digits_val(d: Seq<u8>) -> nat
    decreases d.len(),
{
    if d.len() == 0 {
        0
    } else {
        (digits_val(d.take(d.len() - 1)) * 10 + (d[d.len() - 1] - 48)) as nat
    }
}

/// The canonical decimal digits of `n`: no sign, no leading zero.
pub open spec fn spec_dec_u64(n: u64) -> Seq<u8>
    decreases n,
{
    if n < 10 {
        seq![(n + 48) as u8]
    } else {
        spec_dec_u64(n / 10) + seq![((n % 10) + 48) as u8]
    }
}

/// Strict parse of a canonical decimal `u64` starting at `i`: a digit
/// run without a leading zero whose value fits.
pub open spec fn spec_parse_u64(s: Seq<u8>, i: int) -> Option<(u64, int)> {
    if i < 0 || i >= s.len() || !is_digit(s[i]) {
        None
    } else {
        let j = spec_digit_run_end(s, i);
        let d = s.subrange(i, j);
        if d.len() > 1 && s[i] == 48 {
            None
        } else if digits_val(d) > u64::MAX {
            None
        } else {
            Some((digits_val(d) as u64, j))
        }
    }
}

pub proof fn lemma_dec_u64_props(n: u64)
    ensures
        spec_dec_u64(n).len() >= 1,
        forall|k: int| 0 <= k < spec_dec_u64(n).len() ==> is_digit(spec_dec_u64(n)[k]),
        spec_dec_u64(n)[0] == 48 ==> n < 10,
        digits_val(spec_dec_u64(n)) == n,
    decreases n,
{
    if n < 10 {
        let d = spec_dec_u64(n);
        assert(d.take(d.len() - 1) =~= Seq::<u8>::empty());
        assert(digits_val(Seq::<u8>::empty()) == 0);
        assert(digits_val(d) == n);
    } else {
        lemma_dec_u64_props(n / 10);
        let d = spec_dec_u64(n);
        let dh = spec_dec_u64(n / 10);
        assert(d == dh + seq![((n % 10) + 48) as u8]);
        assert(d.take(d.len() - 1) =~= dh);
        assert(d[0] == dh[0]);
        assert(n / 10 >= 1);
        if n / 10 < 10 {
            assert(dh == seq![((n / 10) + 48) as u8]);
            assert(dh[0] != 48);
        } else {
            assert(dh[0] != 48);
        }
        assert(forall|k: int| 0 <= k < d.len() ==> is_digit(d[k])) by {
            assert(forall|k: int| 0 <= k < dh.len() ==> d[k] == dh[k]);
            assert(d[d.len() - 1] == ((n % 10) + 48) as u8);
            assert(is_digit(((n % 10) + 48) as u8));
        }
        assert(digits_val(d) == digits_val(dh) * 10 + (n % 10));
        assert(digits_val(d) == (n / 10) * 10 + (n % 10));
        assert((n / 10) * 10 + (n % 10) == n) by {
            vstd::arithmetic::div_mod::lemma_fundamental_div_mod(n as int, 10);
        }
    }
}

proof fn lemma_digits_val_pos(d: Seq<u8>)
    requires
        d.len() >= 1,
        forall|k: int| 0 <= k < d.len() ==> is_digit(d[k]),
        d[0] != 48,
    ensures
        digits_val(d) >= 1,
    decreases d.len(),
{
    if d.len() == 1 {
    } else {
        let dh = d.take(d.len() - 1);
        lemma_digits_val_pos(dh);
    }
}

/// Uniqueness of decimal form: a digit string without a leading zero is
/// the canonical digits of its value.
pub proof fn lemma_digits_unique(d: Seq<u8>)
    requires
        d.len() >= 1,
        forall|k: int| 0 <= k < d.len() ==> is_digit(d[k]),
        d[0] != 48 || d.len() == 1,
        digits_val(d) <= u64::MAX,
    ensures
        d == spec_dec_u64(digits_val(d) as u64),
    decreases d.len(),
{
    let n = digits_val(d);
    if d.len() == 1 {
        assert(d.take(0) =~= Seq::<u8>::empty());
        assert(n == d[0] - 48);
        assert(d =~= spec_dec_u64(n as u64));
    } else {
        let dh = d.take(d.len() - 1);
        let c = d[d.len() - 1];
        assert(n == digits_val(dh) * 10 + (c - 48));
        assert(dh[0] == d[0]);
        lemma_digits_val_pos(dh);
        let vh = digits_val(dh);
        assert(vh * 10 <= n);
        assert(vh <= vh * 10) by (nonlinear_arith)
            requires
                vh >= 0,
        ;
        lemma_digits_unique(dh);
        assert(n >= 10);
        vstd::arithmetic::div_mod::lemma_fundamental_div_mod_converse(
            n as int,
            10,
            vh as int,
            (c - 48) as int,
        );
        assert(n as u64 / 10 == vh as u64);
        assert(n as u64 % 10 == (c - 48) as u64);
        assert(spec_dec_u64(n as u64) == spec_dec_u64(vh as u64) + seq![c]);
        assert(d =~= dh + seq![c]);
    }
}

/// The index after `lit` if `s` holds `lit` verbatim at `i`.
pub open spec fn spec_expect(s: Seq<u8>, i: int, lit: Seq<u8>) -> Option<int> {
    if 0 <= i && i + lit.len() <= s.len() && s.subrange(i, i + lit.len() as int) == lit {
        Some(i + lit.len() as int)
    } else {
        None
    }
}

/// Whether `s` holds `lit` verbatim at `i`.
pub fn expect_lit(s: &Vec<u8>, i: usize, lit: &Vec<u8>) -> (r: Option<usize>)
    requires
        i <= s@.len(),
    ensures
        (r is Some) == (spec_expect(s@, i as int, lit@) is Some),
        r matches Some(j) ==> spec_expect(s@, i as int, lit@) == Some(j as int),
{
    if s.len() - i < lit.len() {
        proof {
            assert(spec_expect(s@, i as int, lit@) is None);
        }
        return None;
    }
    let mut k: usize = 0;
    while k < lit.len()
        invariant
            k <= lit@.len(),
            i + lit@.len() <= s@.len(),
            s@.len() <= usize::MAX,
            forall|m: int| 0 <= m < k ==> s@[i + m] == lit@[m],
        decreases lit@.len() - k,
    {
        proof {
            assert(i + k < s@.len());
        }
        if s[i + k] != lit[k] {
            proof {
                assert(s@.subrange(i as int, i + lit@.len() as int) != lit@) by {
                    assert(s@.subrange(i as int, i + lit@.len() as int)[k as int] != lit@[
                    k as int]);
                }
            }
            return None;
        }
        k += 1;
    }
    proof {
        assert(s@.subrange(i as int, i + lit@.len() as int) =~= lit@);
    }
    Some(i + lit.len())
}

pub proof fn lemma_run_end_is(s: Seq<u8>, i: int, j: int)
    requires
        0 <= i <= j <= s.len(),
        forall|k: int| i <= k < j ==> is_digit(s[k]),
        j == s.len() || !is_digit(s[j]),
    ensures
        spec_digit_run_end(s, i) == j,
    decreases j - i,
{
    if i < j {
        lemma_run_end_is(s, i + 1, j);
    }
}

/// Completeness of the strict number parser: at a position holding the
/// canonical digits of `n` with the run ending there, it returns `n`.
pub proof fn lemma_parse_u64_complete(s: Seq<u8>, i: int, n: u64)
    requires
        0 <= i,
        i + spec_dec_u64(n).len() <= s.len(),
        s.subrange(i, i + spec_dec_u64(n).len() as int) == spec_dec_u64(n),
        i + spec_dec_u64(n).len() == s.len() || !is_digit(s[i + spec_dec_u64(n).len() as int]),
    ensures
        spec_parse_u64(s, i) == Some((n, i + spec_dec_u64(n).len() as int)),
{
    let d = spec_dec_u64(n);
    let j = i + d.len();
    lemma_dec_u64_props(n);
    assert(forall|k: int| i <= k < j ==> s[k] == d[k - i]);
    assert(is_digit(s[i]));
    lemma_run_end_is(s, i, j);
    assert(s.subrange(i, j) == d);
    if d.len() > 1 {
        assert(d[0] != 48) by {
            if d[0] == 48 {
                assert(n < 10);
                assert(d.len() == 1);
            }
        }
        assert(s[i] != 48);
    }
    assert(digits_val(d) == n);
}

/// Soundness of the strict number parser: whatever it accepts occupies
/// exactly the canonical digits of its value.
pub proof fn lemma_parse_u64_sound(s: Seq<u8>, i: int)
    requires
        spec_parse_u64(s, i) is Some,
    ensures
        ({
            let (n, j) = spec_parse_u64(s, i).unwrap();
            &&& i < j <= s.len()
            &&& s.subrange(i, j) == spec_dec_u64(n)
            &&& (j == s.len() || !is_digit(s[j]))
        }),
{
    let (n, j) = spec_parse_u64(s, i).unwrap();
    lemma_digit_run(s, i);
    assert(spec_digit_run_end(s, i) == spec_digit_run_end(s, i + 1) && i < spec_digit_run_end(
        s,
        i,
    )) by {
        assert(is_digit(s[i]));
        lemma_digit_run(s, i + 1);
    }
    let d = s.subrange(i, j);
    assert(forall|k: int| 0 <= k < d.len() ==> is_digit(d[k]));
    assert(d[0] == s[i]);
    lemma_digits_unique(d);
}

pub fn is_digit_b(c: u8) -> (r: bool)
    ensures
        r == is_digit(c),
{
    48 <= c && c <= 57
}

fn hex_digit(v: u8) -> (r: u8)
    requires
        v < 16,
    ensures
        r == hex_digit_of(v),
{
    if v < 10 {
        v + 48
    } else {
        v + 87
    }
}

fn hex_val(c: u8) -> (r: Option<u8>)
    ensures
        (r is Some) == is_hex_lower(c),
        r matches Some(v) ==> v == hex_val_of(c) && v < 16,
{
    if 48 <= c && c <= 57 {
        Some(c - 48)
    } else if 97 <= c && c <= 102 {
        Some(c - 87)
    } else {
        None
    }
}

fn unesc_shortcut_b(c: u8) -> (r: Option<u8>)
    ensures
        r == unesc_shortcut(c),
{
    if c == 34 {
        Some(34)
    } else if c == 92 {
        Some(92)
    } else if c == 98 {
        Some(8)
    } else if c == 116 {
        Some(9)
    } else if c == 110 {
        Some(10)
    } else if c == 102 {
        Some(12)
    } else if c == 114 {
        Some(13)
    } else {
        None
    }
}

/// Appends the canonical escaping of `s` to `out`.
pub fn json_escape_into(out: &mut Vec<u8>, s: &Vec<u8>)
    ensures
        final(out)@ == old(out)@ + spec_json_escape(s@),
{
    let ghost orig: Seq<u8> = out@;
    let mut i: usize = 0;
    proof {
        assert(s@.skip(0) =~= s@);
    }
    while i < s.len()
        invariant
            i <= s@.len(),
            out@ + spec_json_escape(s@.skip(i as int)) == orig + spec_json_escape(s@),
        decreases s@.len() - i,
    {
        let b = s[i];
        proof {
            assert(s@.skip(i as int)[0] == b);
            assert(s@.skip(i as int).skip(1) =~= s@.skip(i as int + 1));
            assert(spec_json_escape(s@.skip(i as int)) == esc_byte(b) + spec_json_escape(
                s@.skip(i as int + 1),
            ));
        }
        if b == 34 {
            out.push(92);
            out.push(34);
        } else if b == 92 {
            out.push(92);
            out.push(92);
        } else if b == 8 {
            out.push(92);
            out.push(98);
        } else if b == 9 {
            out.push(92);
            out.push(116);
        } else if b == 10 {
            out.push(92);
            out.push(110);
        } else if b == 12 {
            out.push(92);
            out.push(102);
        } else if b == 13 {
            out.push(92);
            out.push(114);
        } else if b < 32 {
            out.push(92);
            out.push(117);
            out.push(48);
            out.push(48);
            proof {
                lemma_low_byte_split(b);
            }
            out.push(hex_digit(b >> 4));
            out.push(hex_digit(b & 15));
        } else {
            out.push(b);
        }
        i += 1;
        assert(out@ + spec_json_escape(s@.skip(i as int)) =~= orig + spec_json_escape(s@));
    }
    proof {
        assert(s@.skip(s@.len() as int) =~= Seq::<u8>::empty());
        assert(spec_json_escape(Seq::<u8>::empty()) == Seq::<u8>::empty());
        assert(out@ =~= orig + spec_json_escape(s@));
    }
}

/// Strict parse of a JSON string body, starting after the opening
/// quote; returns the unescaped bytes and the index after the closing
/// quote.
pub fn parse_str_body_at(s: &Vec<u8>, start: usize) -> (r: Option<(Vec<u8>, usize)>)
    ensures
        (r is Some) == (spec_parse_str_body(s@, start as int) is Some),
        r matches Some(p) ==> spec_parse_str_body(s@, start as int) == Some((p.0@, p.1 as int)),
{
    if start >= s.len() {
        return None;
    }
    let mut acc: Vec<u8> = Vec::new();
    let mut cur: usize = start;
    proof {
        if spec_parse_str_body(s@, start as int) is Some {
            let (t, j) = spec_parse_str_body(s@, start as int).unwrap();
            assert(Seq::<u8>::empty() + t =~= t);
        }
    }
    loop
        invariant
            start <= cur,
            cur <= s@.len(),
            spec_parse_str_body(s@, start as int) == match spec_parse_str_body(s@, cur as int) {
                Some((t, j)) => Some((acc@ + t, j)),
                None => None::<(Seq<u8>, int)>,
            },
        decreases s@.len() - cur,
    {
        if cur >= s.len() {
            return None;
        }
        let c = s[cur];
        if c == 34 {
            proof {
                assert(acc@ + Seq::<u8>::empty() =~= acc@);
            }
            return Some((acc, cur + 1));
        }
        if c == 92 {
            if s.len() - cur < 2 {
                return None;
            }
            let e = s[cur + 1];
            let short = unesc_shortcut_b(e);
            if short.is_some() {
                let u = short.unwrap();
                let ghost acc0: Seq<u8> = acc@;
                acc.push(u);
                cur += 2;
                proof {
                    if spec_parse_str_body(s@, cur as int) is Some {
                        let (t, j) = spec_parse_str_body(s@, cur as int).unwrap();
                        assert(acc0 + (seq![u] + t) =~= acc@ + t);
                    }
                }
            } else if e == 117 {
                if s.len() - cur < 6 {
                    return None;
                }
                let h1 = hex_val(s[cur + 4]);
                let h0 = hex_val(s[cur + 5]);
                if s[cur + 2] != 48 || s[cur + 3] != 48 || h1.is_none() || h0.is_none() {
                    return None;
                }
                let v = h1.unwrap() * 16 + h0.unwrap();
                if v >= 32 {
                    return None;
                }
                if v == 8 || v == 9 || v == 10 || v == 12 || v == 13 {
                    return None;
                }
                let ghost acc0: Seq<u8> = acc@;
                acc.push(v);
                cur += 6;
                proof {
                    if spec_parse_str_body(s@, cur as int) is Some {
                        let (t, j) = spec_parse_str_body(s@, cur as int).unwrap();
                        assert(acc0 + (seq![v] + t) =~= acc@ + t);
                    }
                }
            } else {
                return None;
            }
        } else if c < 32 {
            return None;
        } else {
            let ghost acc0: Seq<u8> = acc@;
            acc.push(c);
            cur += 1;
            proof {
                if spec_parse_str_body(s@, cur as int) is Some {
                    let (t, j) = spec_parse_str_body(s@, cur as int).unwrap();
                    assert(acc0 + (seq![c] + t) =~= acc@ + t);
                }
            }
        }
    }
}

/// Strict parse of a canonical decimal `u64`; returns the value and the
/// index after the digit run.
pub fn parse_u64_at(s: &Vec<u8>, start: usize) -> (r: Option<(u64, usize)>)
    ensures
        (r is Some) == (spec_parse_u64(s@, start as int) is Some),
        r matches Some(p) ==> spec_parse_u64(s@, start as int) == Some((p.0, p.1 as int)),
{
    if start >= s.len() || !is_digit_b(s[start]) {
        return None;
    }
    let mut j: usize = start;
    while j < s.len() && is_digit_b(s[j])
        invariant
            start <= j <= s@.len(),
            spec_digit_run_end(s@, start as int) == spec_digit_run_end(s@, j as int),
            forall|k: int| start <= k < j ==> is_digit(s@[k]),
        decreases s@.len() - j,
    {
        j += 1;
    }
    proof {
        assert(spec_digit_run_end(s@, j as int) == j);
    }
    let ghost d: Seq<u8> = s@.subrange(start as int, j as int);
    if j - start > 1 && s[start] == 48 {
        return None;
    }
    let mut val: u64 = 0;
    let mut m: usize = start;
    proof {
        assert(s@.subrange(start as int, start as int) =~= Seq::<u8>::empty());
        assert(digits_val(Seq::<u8>::empty()) == 0);
    }
    while m < j
        invariant
            start <= m <= j <= s@.len(),
            start < s@.len(),
            is_digit(s@[start as int]),
            spec_digit_run_end(s@, start as int) == j as int,
            d == s@.subrange(start as int, j as int),
            d.len() > 1 ==> s@[start as int] != 48,
            forall|k: int| start <= k < j ==> is_digit(s@[k]),
            digits_val(s@.subrange(start as int, m as int)) == val,
        decreases j - m,
    {
        let dig = s[m] - 48;
        if val > (u64::MAX - dig as u64) / 10 {
            proof {
                let pre = s@.subrange(start as int, m as int + 1);
                assert(pre.take(pre.len() - 1) =~= s@.subrange(start as int, m as int));
                assert(digits_val(pre) == val * 10 + dig);
                assert(val * 10 + dig > u64::MAX) by (nonlinear_arith)
                    requires
                        val > (u64::MAX - dig as u64) / 10,
                        0 <= dig < 10,
                ;
                assert(d.take(m as int + 1 - start) =~= pre);
                lemma_digits_val_mono(d, m as int + 1 - start);
                assert(digits_val(d) > u64::MAX);
            }
            return None;
        }
        proof {
            assert(val * 10 + dig <= u64::MAX) by (nonlinear_arith)
                requires
                    val <= (u64::MAX - dig as u64) / 10,
                    0 <= dig < 10,
            ;
            let pre = s@.subrange(start as int, m as int + 1);
            assert(pre.take(pre.len() - 1) =~= s@.subrange(start as int, m as int));
            assert(digits_val(pre) == val * 10 + dig);
        }
        val = val * 10 + dig as u64;
        m += 1;
    }
    proof {
        assert(s@.subrange(start as int, m as int) =~= d);
        assert(spec_digit_run_end(s@, start as int) == j as int);
        assert(digits_val(d) == val);
        assert(!(d.len() > 1 && s@[start as int] == 48));
        assert(spec_parse_u64(s@, start as int) == Some((val, j as int)));
    }
    Some((val, j))
}

/// Appends the canonical decimal digits of `n` to `out`.
pub fn push_dec_u64(out: &mut Vec<u8>, n: u64)
    ensures
        final(out)@ == old(out)@ + spec_dec_u64(n),
    decreases n,
{
    if n < 10 {
        out.push((n as u8) + 48);
        assert(out@ =~= old(out)@ + spec_dec_u64(n));
    } else {
        push_dec_u64(out, n / 10);
        out.push(((n % 10) as u8) + 48);
        assert(out@ =~= old(out)@ + spec_dec_u64(n));
    }
}

/// Monotony of digit value under extension: a prefix never has the
/// larger value.
pub proof fn lemma_digits_val_mono(d: Seq<u8>, k: int)
    requires
        0 <= k <= d.len(),
        forall|m: int| 0 <= m < d.len() ==> is_digit(d[m]),
    ensures
        digits_val(d.take(k)) <= digits_val(d),
    decreases d.len() - k,
{
    if k < d.len() {
        let d2 = d.take(k + 1);
        assert(d2.take(k) =~= d.take(k));
        let v = digits_val(d.take(k));
        assert(digits_val(d2) == v * 10 + (d[k] - 48));
        assert(v <= v * 10) by (nonlinear_arith)
            requires
                v >= 0,
        ;
        lemma_digits_val_mono(d, k + 1);
    } else {
        assert(d.take(k) =~= d);
    }
}

} // verus!
