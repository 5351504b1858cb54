//! Unpadded base64url, the transport encoding of token segments.
//!
//! `spec_b64_encode` is the mathematical definition of the encoding;
//! `spec_b64_decode` is its strict inverse, rejecting padding, bytes
//! outside the alphabet, lengths that no encoding produces, and
//! non-zero trailing bits, so that every byte string has exactly one
//! accepted encoding. The two lemmas at the end state that the pair
//! round-trips in both directions.

use vstd::prelude::*;

verus! {

/// Whether `c` is a byte of the base64url alphabet.
pub open spec fn is_b64_byte(c: u8) -> bool {
    (65 <= c && c <= 90)  // A-Z
    || (97 <= c && c <= 122)  // a-z
    || (48 <= c && c <= 57)  // 0-9
    || c == 45  // -
    || c == 95  // _
}

/// The alphabet byte that stands for the sextet `i`.
pub open spec fn b64_byte_of(i: u8) -> u8
    recommends
        i < 64,
{
    if i < 26 {
        (i + 65) as u8
    } else if i < 52 {
        (i + 71) as u8
    } else if i < 62 {
        (i - 4) as u8
    } else if i == 62 {
        45u8
    } else {
        95u8
    }
}

/// The sextet that the alphabet byte `c` stands for.
pub open spec fn b64_val_of(c: u8) -> u8
    recommends
        is_b64_byte(c),
{
    if 65 <= c && c <= 90 {
        (c - 65) as u8
    } else if 97 <= c && c <= 122 {
        (c - 71) as u8
    } else if 48 <= c && c <= 57 {
        (c + 4) as u8
    } else if c == 45 {
        62u8
    } else {
        63u8
    }
}

proof fn lemma_byte_of_val(i: u8)
    requires
        i < 64,
    ensures
        is_b64_byte(b64_byte_of(i)),
        b64_val_of(b64_byte_of(i)) == i,
{
}

proof fn lemma_val_of_byte(c: u8)
    requires
        is_b64_byte(c),
    ensures
        b64_val_of(c) < 64,
        b64_byte_of(b64_val_of(c)) == c,
{
}

/// The four alphabet bytes encoding a full group of three bytes.
pub open spec fn enc3(x: u8, y: u8, z: u8) -> Seq<u8> {
    seq![
        b64_byte_of(x >> 2),
        b64_byte_of(((x & 3) << 4) | (y >> 4)),
        b64_byte_of(((y & 15) << 2) | (z >> 6)),
        b64_byte_of(z & 63),
    ]
}

/// The three alphabet bytes encoding a final group of two bytes.
pub open spec fn enc2(x: u8, y: u8) -> Seq<u8> {
    seq![
        b64_byte_of(x >> 2),
        b64_byte_of(((x & 3) << 4) | (y >> 4)),
        b64_byte_of((y & 15) << 2),
    ]
}

/// The two alphabet bytes encoding a final group of one byte.
pub open spec fn enc1(x: u8) -> Seq<u8> {
    seq![b64_byte_of(x >> 2), b64_byte_of((x & 3) << 4)]
}

/// Unpadded base64url encoding of a byte string.
pub open spec fn spec_b64_encode(s: Seq<u8>) -> Seq<u8>
    decreases s.len(),
{
    if s.len() == 0 {
        Seq::empty()
    } else if s.len() == 1 {
        enc1(s[0])
    } else if s.len() == 2 {
        enc2(s[0], s[1])
    } else {
        enc3(s[0], s[1], s[2]) + spec_b64_encode(s.skip(3))
    }
}

/// The three bytes carried by a full group of four sextets.
pub open spec fn dec4(a: u8, b: u8, c: u8, d: u8) -> Seq<u8> {
    seq![((a << 2) | (b >> 4)) as u8, (((b & 15) << 4) | (c >> 2)) as u8, (((c & 3) << 6) | d) as u8]
}

/// Strict decoding: the inverse of `spec_b64_encode`, `None` on every
/// byte string that no encoding produces.
pub open spec fn spec_b64_decode(s: Seq<u8>) -> Option<Seq<u8>>
    decreases s.len(),
{
    if s.len() == 0 {
        Some(Seq::empty())
    } else if s.len() == 1 {
        None
    } else if s.len() == 2 {
        if is_b64_byte(s[0]) && is_b64_byte(s[1]) && (b64_val_of(s[1]) & 15) == 0 {
            Some(seq![((b64_val_of(s[0]) << 2) | (b64_val_of(s[1]) >> 4)) as u8])
        } else {
            None
        }
    } else if s.len() == 3 {
        if is_b64_byte(s[0]) && is_b64_byte(s[1]) && is_b64_byte(s[2]) && (b64_val_of(s[2]) & 3)
            == 0 {
            Some(
                seq![
                    ((b64_val_of(s[0]) << 2) | (b64_val_of(s[1]) >> 4)) as u8,
                    (((b64_val_of(s[1]) & 15) << 4) | (b64_val_of(s[2]) >> 2)) as u8,
                ],
            )
        } else {
            None
        }
    } else if s.len() == 4 {
        if is_b64_byte(s[0]) && is_b64_byte(s[1]) && is_b64_byte(s[2]) && is_b64_byte(s[3]) {
            Some(dec4(b64_val_of(s[0]), b64_val_of(s[1]), b64_val_of(s[2]), b64_val_of(s[3])))
        } else {
            None
        }
    } else {
        if is_b64_byte(s[0]) && is_b64_byte(s[1]) && is_b64_byte(s[2]) && is_b64_byte(s[3]) {
            match spec_b64_decode(s.skip(4)) {
                Some(rest) => Some(
                    dec4(b64_val_of(s[0]), b64_val_of(s[1]), b64_val_of(s[2]), b64_val_of(s[3]))
                        + rest,
                ),
                None => None,
            }
        } else {
            None
        }
    }
}

proof fn lemma_pack3(x: u8, y: u8, z: u8)
    ensures
        x >> 2 < 64,
        ((x & 3) << 4) | (y >> 4) < 64,
        ((y & 15) << 2) | (z >> 6) < 64,
        z & 63 < 64,
        ((x >> 2) << 2) | ((((x & 3) << 4) | (y >> 4)) >> 4) == x,
        (((((x & 3) << 4) | (y >> 4)) & 15) << 4) | ((((y & 15) << 2) | (z >> 6)) >> 2) == y,
        (((((y & 15) << 2) | (z >> 6)) & 3) << 6) | (z & 63) == z,
{
    assert(x >> 2 < 64 && ((x & 3) << 4) | (y >> 4) < 64 && ((y & 15) << 2) | (z >> 6) < 64 && z
        & 63 < 64 && ((x >> 2) << 2) | ((((x & 3) << 4) | (y >> 4)) >> 4) == x && (((((x & 3) << 4)
        | (y >> 4)) & 15) << 4) | ((((y & 15) << 2) | (z >> 6)) >> 2) == y && (((((y & 15) << 2) | (
    z >> 6)) & 3) << 6) | (z & 63) == z) by (bit_vector);
}

proof fn lemma_pack2(x: u8, y: u8)
    ensures
        x >> 2 < 64,
        ((x & 3) << 4) | (y >> 4) < 64,
        (y & 15) << 2 < 64,
        ((y & 15) << 2) & 3 == 0,
        ((x >> 2) << 2) | ((((x & 3) << 4) | (y >> 4)) >> 4) == x,
        (((((x & 3) << 4) | (y >> 4)) & 15) << 4) | (((y & 15) << 2) >> 2) == y,
{
    assert(x >> 2 < 64 && ((x & 3) << 4) | (y >> 4) < 64 && (y & 15) << 2 < 64 && ((y & 15) << 2)
        & 3 == 0 && ((x >> 2) << 2) | ((((x & 3) << 4) | (y >> 4)) >> 4) == x && (((((x & 3) << 4)
        | (y >> 4)) & 15) << 4) | (((y & 15) << 2) >> 2) == y) by (bit_vector);
}

proof fn lemma_pack1(x: u8)
    ensures
        x >> 2 < 64,
        (x & 3) << 4 < 64,
        ((x & 3) << 4) & 15 == 0,
        ((x >> 2) << 2) | (((x & 3) << 4) >> 4) == x,
{
    assert(x >> 2 < 64 && (x & 3) << 4 < 64 && ((x & 3) << 4) & 15 == 0 && ((x >> 2) << 2) | (((x
        & 3) << 4) >> 4) == x) by (bit_vector);
}

proof fn lemma_unpack3(a: u8, b: u8, c: u8, d: u8)
    requires
        a < 64,
        b < 64,
        c < 64,
        d < 64,
    ensures
        ((a << 2) | (b >> 4)) >> 2 == a,
        ((((a << 2) | (b >> 4)) & 3) << 4) | ((((b & 15) << 4) | (c >> 2)) >> 4) == b,
        (((((b & 15) << 4) | (c >> 2)) & 15) << 2) | ((((c & 3) << 6) | d) >> 6) == c,
        (((c & 3) << 6) | d) & 63 == d,
{
    assert(a < 64 && b < 64 && c < 64 && d < 64 ==> ((a << 2) | (b >> 4)) >> 2 == a && ((((a << 2)
        | (b >> 4)) & 3) << 4) | ((((b & 15) << 4) | (c >> 2)) >> 4) == b && (((((b & 15) << 4) | (
    c >> 2)) & 15) << 2) | ((((c & 3) << 6) | d) >> 6) == c && (((c & 3) << 6) | d) & 63 == d)
        by (bit_vector);
}

proof fn lemma_unpack2(a: u8, b: u8, c: u8)
    requires
        a < 64,
        b < 64,
        c < 64,
        c & 3 == 0,
    ensures
        ((a << 2) | (b >> 4)) >> 2 == a,
        ((((a << 2) | (b >> 4)) & 3) << 4) | ((((b & 15) << 4) | (c >> 2)) >> 4) == b,
        ((((b & 15) << 4) | (c >> 2)) & 15) << 2 == c,
{
    assert(a < 64 && b < 64 && c < 64 && c & 3 == 0 ==> ((a << 2) | (b >> 4)) >> 2 == a && ((((a
        << 2) | (b >> 4)) & 3) << 4) | ((((b & 15) << 4) | (c >> 2)) >> 4) == b && ((((b & 15)
        << 4) | (c >> 2)) & 15) << 2 == c) by (bit_vector);
}

proof fn lemma_unpack1(a: u8, b: u8)
    requires
        a < 64,
        b < 64,
        b & 15 == 0,
    ensures
        ((a << 2) | (b >> 4)) >> 2 == a,
        (((a << 2) | (b >> 4)) & 3) << 4 == b,
{
    assert(a < 64 && b < 64 && b & 15 == 0 ==> ((a << 2) | (b >> 4)) >> 2 == a && (((a << 2) | (b
        >> 4)) & 3) << 4 == b) by (bit_vector);
}

/// Decoding inverts encoding: every byte string comes back from its
/// encoding unchanged.
pub proof fn lemma_b64_decode_of_encode(s: Seq<u8>)
    ensures
        spec_b64_decode(spec_b64_encode(s)) == Some(s),
    decreases s.len(),
{
    let e = spec_b64_encode(s);
    if s.len() == 0 {
        assert(e.len() == 0);
        assert(s =~= Seq::<u8>::empty());
    } else if s.len() == 1 {
        lemma_pack1(s[0]);
        lemma_byte_of_val(s[0] >> 2);
        lemma_byte_of_val((s[0] & 3) << 4);
        assert(spec_b64_decode(e) matches Some(d) && d =~= s);
    } else if s.len() == 2 {
        lemma_pack2(s[0], s[1]);
        lemma_byte_of_val(s[0] >> 2);
        lemma_byte_of_val(((s[0] & 3) << 4) | (s[1] >> 4));
        lemma_byte_of_val((s[1] & 15) << 2);
        assert(spec_b64_decode(e) matches Some(d) && d =~= s);
    } else {
        lemma_pack3(s[0], s[1], s[2]);
        lemma_byte_of_val(s[0] >> 2);
        lemma_byte_of_val(((s[0] & 3) << 4) | (s[1] >> 4));
        lemma_byte_of_val(((s[1] & 15) << 2) | (s[2] >> 6));
        lemma_byte_of_val(s[2] & 63);
        let rest = s.skip(3);
        lemma_b64_decode_of_encode(rest);
        let erest = spec_b64_encode(rest);
        assert(e =~= enc3(s[0], s[1], s[2]) + erest);
        lemma_b64_encode_len(rest);
        if rest.len() == 0 {
            assert(e.len() == 4);
            assert(spec_b64_decode(e) matches Some(d) && d =~= s);
        } else {
            assert(erest.len() >= 2);
            assert(e.len() >= 6);
            assert(e.skip(4) =~= erest);
            assert(spec_b64_decode(e) matches Some(d) && d =~= s);
        }
    }
}

/// The length of an encoding: four bytes for every full group of three,
/// two or three for a final partial group.
pub proof fn lemma_b64_encode_len(s: Seq<u8>)
    ensures
        s.len() % 3 == 0 ==> spec_b64_encode(s).len() == s.len() / 3 * 4,
        s.len() % 3 == 1 ==> spec_b64_encode(s).len() == s.len() / 3 * 4 + 2,
        s.len() % 3 == 2 ==> spec_b64_encode(s).len() == s.len() / 3 * 4 + 3,
    decreases s.len(),
{
    if s.len() >= 3 {
        lemma_b64_encode_len(s.skip(3));
    }
}

/// Encoding inverts decoding: a byte string that decodes successfully
/// is the encoding of its decoding, so each value has one encoding.
pub proof fn lemma_b64_encode_of_decode(s: Seq<u8>)
    requires
        spec_b64_decode(s) is Some,
    ensures
        spec_b64_encode(spec_b64_decode(s).unwrap()) == s,
    decreases s.len(),
{
    let b = spec_b64_decode(s).unwrap();
    if s.len() == 0 {
        assert(spec_b64_encode(b) =~= s);
    } else if s.len() == 2 {
        let a0 = b64_val_of(s[0]);
        let a1 = b64_val_of(s[1]);
        lemma_val_of_byte(s[0]);
        lemma_val_of_byte(s[1]);
        lemma_unpack1(a0, a1);
        assert(spec_b64_encode(b) =~= s);
    } else if s.len() == 3 {
        let a0 = b64_val_of(s[0]);
        let a1 = b64_val_of(s[1]);
        let a2 = b64_val_of(s[2]);
        lemma_val_of_byte(s[0]);
        lemma_val_of_byte(s[1]);
        lemma_val_of_byte(s[2]);
        lemma_unpack2(a0, a1, a2);
        assert(spec_b64_encode(b) =~= s);
    } else if s.len() == 4 {
        let a0 = b64_val_of(s[0]);
        let a1 = b64_val_of(s[1]);
        let a2 = b64_val_of(s[2]);
        let a3 = b64_val_of(s[3]);
        lemma_val_of_byte(s[0]);
        lemma_val_of_byte(s[1]);
        lemma_val_of_byte(s[2]);
        lemma_val_of_byte(s[3]);
        lemma_unpack3(a0, a1, a2, a3);
        assert(b =~= dec4(a0, a1, a2, a3));
        assert(b[0] == ((a0 << 2) | (a1 >> 4)) as u8);
        assert(b[1] == (((a1 & 15) << 4) | (a2 >> 2)) as u8);
        assert(b[2] == (((a2 & 3) << 6) | a3) as u8);
        assert(b64_byte_of(b[0] >> 2) == s[0]);
        assert(b64_byte_of(((b[0] & 3) << 4) | (b[1] >> 4)) == s[1]);
        assert(b64_byte_of(((b[1] & 15) << 2) | (b[2] >> 6)) == s[2]);
        assert(b64_byte_of(b[2] & 63) == s[3]);
        assert(b.skip(3) =~= Seq::<u8>::empty());
        assert(spec_b64_encode(b) == enc3(b[0], b[1], b[2]) + spec_b64_encode(b.skip(3)));
        assert(spec_b64_encode(b) =~= s);
    } else {
        let a0 = b64_val_of(s[0]);
        let a1 = b64_val_of(s[1]);
        let a2 = b64_val_of(s[2]);
        let a3 = b64_val_of(s[3]);
        lemma_val_of_byte(s[0]);
        lemma_val_of_byte(s[1]);
        lemma_val_of_byte(s[2]);
        lemma_val_of_byte(s[3]);
        lemma_unpack3(a0, a1, a2, a3);
        let rest = s.skip(4);
        lemma_b64_encode_of_decode(rest);
        let brest = spec_b64_decode(rest).unwrap();
        assert(b =~= dec4(a0, a1, a2, a3) + brest);
        assert(b.len() >= 3);
        assert(b.skip(3) =~= brest);
        assert(b[0] == ((a0 << 2) | (a1 >> 4)) as u8);
        assert(b[1] == (((a1 & 15) << 4) | (a2 >> 2)) as u8);
        assert(b[2] == (((a2 & 3) << 6) | a3) as u8);
        assert(b64_byte_of(b[0] >> 2) == s[0]);
        assert(b64_byte_of(((b[0] & 3) << 4) | (b[1] >> 4)) == s[1]);
        assert(b64_byte_of(((b[1] & 15) << 2) | (b[2] >> 6)) == s[2]);
        assert(b64_byte_of(b[2] & 63) == s[3]);
        assert(spec_b64_encode(b) == enc3(b[0], b[1], b[2]) + spec_b64_encode(b.skip(3)));
        assert(spec_b64_encode(b.skip(3)) == rest);
        assert(spec_b64_encode(b) =~= s);
    }
}

proof fn lemma_byte_of_never_dot(i: u8)
    ensures
        b64_byte_of(i) != 46,
{
}

/// An encoding never contains a dot, so dots delimit base64url segments
/// unambiguously.
pub proof fn lemma_b64_encode_no_dot(s: Seq<u8>)
    ensures
        forall|k: int| 0 <= k < spec_b64_encode(s).len() ==> spec_b64_encode(s)[k] != 46,
    decreases s.len(),
{
    let e = spec_b64_encode(s);
    if s.len() == 0 {
    } else if s.len() == 1 {
        assert forall|k: int| 0 <= k < e.len() implies e[k] != 46 by {
            lemma_byte_of_never_dot(s[0] >> 2);
            lemma_byte_of_never_dot((s[0] & 3) << 4);
        }
    } else if s.len() == 2 {
        assert forall|k: int| 0 <= k < e.len() implies e[k] != 46 by {
            lemma_byte_of_never_dot(s[0] >> 2);
            lemma_byte_of_never_dot(((s[0] & 3) << 4) | (s[1] >> 4));
            lemma_byte_of_never_dot((s[1] & 15) << 2);
        }
    } else {
        lemma_b64_encode_no_dot(s.skip(3));
        let rest = spec_b64_encode(s.skip(3));
        assert forall|k: int| 0 <= k < e.len() implies e[k] != 46 by {
            lemma_byte_of_never_dot(s[0] >> 2);
            lemma_byte_of_never_dot(((s[0] & 3) << 4) | (s[1] >> 4));
            lemma_byte_of_never_dot(((s[1] & 15) << 2) | (s[2] >> 6));
            lemma_byte_of_never_dot(s[2] & 63);
            if k >= 4 {
                assert(e[k] == rest[k - 4]);
            }
        }
    }
}

fn b64_byte(i: u8) -> (r: u8)
    requires
        i < 64,
    ensures
        r == b64_byte_of(i),
{
    if i < 26 {
        i + 65
    } else if i < 52 {
        i + 71
    } else if i < 62 {
        i - 4
    } else if i == 62 {
        45
    } else {
        95
    }
}

fn b64_val(c: u8) -> (r: Option<u8>)
    ensures
        (r is Some) == is_b64_byte(c),
        r matches Some(v) ==> v == b64_val_of(c) && v < 64,
{
    if 65 <= c && c <= 90 {
        Some(c - 65)
    } else if 97 <= c && c <= 122 {
        Some(c - 71)
    } else if 48 <= c && c <= 57 {
        Some(c + 4)
    } else if c == 45 {
        Some(62)
    } else if c == 95 {
        Some(63)
    } else {
        None
    }
}

/// Encodes a byte string as unpadded base64url.
pub fn b64_encode(s: &Vec<u8>) -> (r: Vec<u8>)
    ensures
        r@ == spec_b64_encode(s@),
{
    let mut r: Vec<u8> = Vec::new();
    let mut i: usize = 0;
    proof {
        assert(s@.skip(0) =~= s@);
        assert(Seq::<u8>::empty() + spec_b64_encode(s@) =~= spec_b64_encode(s@));
    }
    while s.len() - i >= 3
        invariant
            i <= s.len(),
            r@ + spec_b64_encode(s@.skip(i as int)) == spec_b64_encode(s@),
        decreases s.len() - i,
    {
        let x = s[i];
        let y = s[i + 1];
        let z = s[i + 2];
        proof {
            lemma_pack3(x, y, z);
            assert(s@.skip(i as int).skip(3) =~= s@.skip(i as int + 3));
            assert(spec_b64_encode(s@.skip(i as int)) =~= enc3(x, y, z) + spec_b64_encode(
                s@.skip(i as int + 3),
            ));
        }
        r.push(b64_byte(x >> 2));
        r.push(b64_byte(((x & 3) << 4) | (y >> 4)));
        r.push(b64_byte(((y & 15) << 2) | (z >> 6)));
        r.push(b64_byte(z & 63));
        i += 3;
        assert(r@ + spec_b64_encode(s@.skip(i as int)) =~= spec_b64_encode(s@));
    }
    if i == s.len() {
        assert(r@ =~= spec_b64_encode(s@));
    } else if s.len() - i == 1 {
        let x = s[i];
        proof {
            lemma_pack1(x);
        }
        r.push(b64_byte(x >> 2));
        r.push(b64_byte((x & 3) << 4));
        assert(r@ =~= spec_b64_encode(s@));
    } else {
        let x = s[i];
        let y = s[i + 1];
        proof {
            lemma_pack2(x, y);
        }
        r.push(b64_byte(x >> 2));
        r.push(b64_byte(((x & 3) << 4) | (y >> 4)));
        r.push(b64_byte((y & 15) << 2));
        assert(r@ =~= spec_b64_encode(s@));
    }
    r
}

/// Decodes unpadded base64url strictly, `None` on any byte string that
/// `b64_encode` cannot produce.
pub fn b64_decode(s: &Vec<u8>) -> (r: Option<Vec<u8>>)
    ensures
        (r is Some) == (spec_b64_decode(s@) is Some),
        r matches Some(v) ==> Some(v@) == spec_b64_decode(s@),
{
    let mut out: Vec<u8> = Vec::new();
    let mut j: usize = 0;
    proof {
        assert(s@.skip(0) =~= s@);
        if spec_b64_decode(s@) is Some {
            assert(Seq::<u8>::empty() + spec_b64_decode(s@).unwrap() =~= spec_b64_decode(
                s@,
            ).unwrap());
        }
    }
    while s.len() - j >= 5
        invariant
            j <= s.len(),
            spec_b64_decode(s@) == match spec_b64_decode(s@.skip(j as int)) {
                Some(rest) => Some(out@ + rest),
                None => None::<Seq<u8>>,
            },
        decreases s.len() - j,
    {
        let v0 = b64_val(s[j]);
        let v1 = b64_val(s[j + 1]);
        let v2 = b64_val(s[j + 2]);
        let v3 = b64_val(s[j + 3]);
        if v0.is_none() || v1.is_none() || v2.is_none() || v3.is_none() {
            return None;
        }
        let a = v0.unwrap();
        let b = v1.unwrap();
        let c = v2.unwrap();
        let d = v3.unwrap();
        proof {
            assert(s@.skip(j as int).skip(4) =~= s@.skip(j as int + 4));
        }
        out.push((a << 2) | (b >> 4));
        out.push(((b & 15) << 4) | (c >> 2));
        out.push(((c & 3) << 6) | d);
        j += 4;
        assert(spec_b64_decode(s@) == match spec_b64_decode(s@.skip(j as int)) {
            Some(rest) => Some(out@ + rest),
            None => None::<Seq<u8>>,
        });
    }
    let rem = s.len() - j;
    if rem == 0 {
        assert(out@ + Seq::<u8>::empty() =~= out@);
        return Some(out);
    }
    if rem == 1 {
        return None;
    }
    let v0 = b64_val(s[j]);
    let v1 = b64_val(s[j + 1]);
    if v0.is_none() || v1.is_none() {
        return None;
    }
    let a = v0.unwrap();
    let b = v1.unwrap();
    if rem == 2 {
        if b & 15 != 0 {
            return None;
        }
        out.push((a << 2) | (b >> 4));
        assert(out@ =~= spec_b64_decode(s@).unwrap());
        return Some(out);
    }
    let v2 = b64_val(s[j + 2]);
    if v2.is_none() {
        return None;
    }
    let c = v2.unwrap();
    if rem == 3 {
        if c & 3 != 0 {
            return None;
        }
        out.push((a << 2) | (b >> 4));
        out.push(((b & 15) << 4) | (c >> 2));
        assert(out@ =~= spec_b64_decode(s@).unwrap());
        return Some(out);
    }
    let v3 = b64_val(s[j + 3]);
    if v3.is_none() {
        return None;
    }
    let d = v3.unwrap();
    out.push((a << 2) | (b >> 4));
    out.push(((b & 15) << 4) | (c >> 2));
    out.push(((c & 3) << 6) | d);
    assert(out@ =~= spec_b64_decode(s@).unwrap());
    Some(out)
}

} // verus!
