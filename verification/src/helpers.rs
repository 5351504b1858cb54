//! Shared helpers of the API layer: result shapes and identifier
//! parsing.

use vstd::prelude::*;

use crate::error::{ArgentError, ErrorStatus, SimpleMessage};

verus! {

/// A result of the core's own logic.
pub type ArgentResult<T> = Result<T, ArgentError>;

/// A response body: payload or nothing.
#[derive(Debug)]
pub enum Data<T> {
    D(T),
    Empty,
}

/// A handler result as the API layer returns it.
pub type ArgentApiResult<T> = Result<Data<T>, ArgentError>;

/// Builds a successful handler result from a payload.
pub trait NewData<T>: Sized {
    fn new(data: T) -> Self;
}

impl<T> NewData<T> for ArgentApiResult<T> {
    fn new(data: T) -> Self {
        Ok(Data::D(data))
    }
}

/// Builds the plain `OK` handler result.
pub trait OkData: Sized {
    fn new_ok() -> Self;
}

impl OkData for ArgentApiResult<SimpleMessage> {
    fn new_ok() -> Self {
        Ok(Data::D(SimpleMessage::ok()))
    }
}

/// Lifts a plain result into a handler result.
pub trait ApiResultFrom<T>: Sized {
    fn api(self) -> ArgentApiResult<T>;
}

impl<T> ApiResultFrom<T> for ArgentResult<T> {
    fn api(self) -> ArgentApiResult<T> {
        match self {
            Ok(v) => Ok(Data::D(v)),
            Err(e) => Err(e),
        }
    }
}

pub open spec fn is_hex_any(c: u8) -> bool {
    (48 <= c && c <= 57) || (97 <= c && c <= 102) || (65 <= c && c <= 70)
}

/// The value of a hex digit of either case.
pub open spec fn hex_any_val(c: u8) -> u8
    recommends
        is_hex_any(c),
{
    if 48 <= c && c <= 57 {
        (c - 48) as u8
    } else if 97 <= c && c <= 102 {
        (c - 87) as u8
    } else {
        (c - 55) as u8
    }
}

/// The text position of nibble `k` in a hyphenated identifier
/// (pattern 8-4-4-4-12).
pub open spec fn uuid_nib_pos(k: int) -> int {
    k + (if k >= 8 {
        1int
    } else {
        0int
    }) + (if k >= 12 {
        1int
    } else {
        0int
    }) + (if k >= 16 {
        1int
    } else {
        0int
    }) + (if k >= 20 {
        1int
    } else {
        0int
    })
}

/// The sixteen bytes a hyphenated unique-identifier string denotes, if
/// it is well-formed: 32 hex digits of either case in the 8-4-4-4-12
/// pattern.
pub open spec fn spec_parse_uuid(s: Seq<u8>) -> Option<Seq<u8>> {
    if s.len() == 36 && s[8] == 45 && s[13] == 45 && s[18] == 45 && s[23] == 45 && (forall|k: int|
        0 <= k < 32 ==> is_hex_any(s[uuid_nib_pos(k)])) {
        Some(
            Seq::new(
                16,
                |i: int|
                    (hex_any_val(s[uuid_nib_pos(2 * i)]) * 16 + hex_any_val(
                        s[uuid_nib_pos(2 * i + 1)],
                    )) as u8,
            ),
        )
    } else {
        None
    }
}

fn nib_pos(k: usize) -> (r: usize)
    requires
        k < 32,
    ensures
        r as int == uuid_nib_pos(k as int),
        r < 36,
{
    let mut r = k;
    if k >= 8 {
        r += 1;
    }
    if k >= 12 {
        r += 1;
    }
    if k >= 16 {
        r += 1;
    }
    if k >= 20 {
        r += 1;
    }
    r
}

fn hex_any(c: u8) -> (r: Option<u8>)
    ensures
        (r is Some) == is_hex_any(c),
        r matches Some(v) ==> v == hex_any_val(c) && v < 16,
{
    if 48 <= c && c <= 57 {
        Some(c - 48)
    } else if 97 <= c && c <= 102 {
        Some(c - 87)
    } else if 65 <= c && c <= 70 {
        Some(c - 55)
    } else {
        None
    }
}

/// Parses a hyphenated unique-identifier string to its sixteen bytes,
/// failing with the given status on any malformed input.
pub fn parse_uuid(string_value: &Vec<u8>, invalid_result: ErrorStatus) -> (r: ArgentResult<
    Vec<u8>,
>)
    ensures
        (r is Ok) == (spec_parse_uuid(string_value@) is Some),
        r matches Ok(b) ==> spec_parse_uuid(string_value@) == Some(b@),
        r is Err ==> r.unwrap_err().status == invalid_result,
{
    let s = string_value;
    if s.len() != 36 || s[8] != 45 || s[13] != 45 || s[18] != 45 || s[23] != 45 {
        return Err(ArgentError::from_status(invalid_result));
    }
    let mut k: usize = 0;
    let mut all_hex = true;
    let ghost mut bad: int = 0;
    while k < 32
        invariant
            k <= 32,
            s@.len() == 36,
            all_hex == (forall|m: int| 0 <= m < k ==> is_hex_any(s@[uuid_nib_pos(m)])),
            !all_hex ==> 0 <= bad < 32 && !is_hex_any(s@[uuid_nib_pos(bad)]),
        decreases 32 - k,
    {
        let p = nib_pos(k);
        if hex_any(s[p]).is_none() {
            if all_hex {
                proof {
                    bad = k as int;
                }
            }
            all_hex = false;
        }
        k += 1;
    }
    if !all_hex {
        proof {
            assert(!(forall|m: int| 0 <= m < 32 ==> is_hex_any(s@[uuid_nib_pos(m)]))) by {
                assert(!is_hex_any(s@[uuid_nib_pos(bad)]));
            }
        }
        return Err(ArgentError::from_status(invalid_result));
    }
    let mut out: Vec<u8> = Vec::new();
    let mut i: usize = 0;
    while i < 16
        invariant
            i <= 16,
            s@.len() == 36,
            out@.len() == i,
            forall|m: int| 0 <= m < 32 ==> is_hex_any(s@[uuid_nib_pos(m)]),
            forall|m: int|
                0 <= m < i ==> out@[m] == (hex_any_val(s@[uuid_nib_pos(2 * m)]) * 16 + hex_any_val(
                    s@[uuid_nib_pos(2 * m + 1)],
                )) as u8,
        decreases 16 - i,
    {
        let p0 = nib_pos(2 * i);
        let p1 = nib_pos(2 * i + 1);
        let h0 = hex_any(s[p0]);
        let h1 = hex_any(s[p1]);
        proof {
            assert(is_hex_any(s@[uuid_nib_pos(2 * (i as int))]));
            assert(is_hex_any(s@[uuid_nib_pos(2 * (i as int) + 1)]));
        }
        out.push(h0.unwrap() * 16 + h1.unwrap());
        i += 1;
    }
    proof {
        assert(out@ =~= spec_parse_uuid(s@).unwrap());
    }
    Ok(out)
}

} // verus!
