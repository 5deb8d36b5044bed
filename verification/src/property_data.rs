//! The plain data shape of a binary-property data file, and the checked
//! conversion of its codepoint ranges.
//!
//! A data file states one boolean Unicode property as a set of inclusive
//! codepoint ranges. Reading and parsing the file is the caller's business;
//! this module holds the parsed shape as plain values and turns its ranges
//! into half-open `char` ranges, rejecting every range that does not denote
//! Unicode scalar values.

use vstd::prelude::*;
use vstd::utf8::is_scalar;

verus! {

/// One boolean Unicode property as a data file states it.
#[derive(Debug, PartialEq, Eq)]
pub struct BinaryProperty {
    pub long_name: String,
    pub name: String,
    pub serialized: Vec<u32>,
    /// Inclusive codepoint ranges of the property's set.
    pub ranges: Vec<(u32, u32)>,
}

/// The nesting level that wraps the property in the file.
#[derive(Debug, PartialEq, Eq)]
pub struct Level1 {
    pub data: BinaryProperty,
}

/// The top level of the file.
#[derive(Debug, PartialEq, Eq)]
pub struct Main {
    pub unicode_set: Level1,
}

/// Why a codepoint range cannot become a `char` range.
#[derive(Clone, Copy, Debug, PartialEq, Eq, Structural)]
pub enum RangeError {
    InvalidCodePoint,
}

/// Whether an inclusive range denotes scalar values: its start is a scalar
/// and the value one past its end is a scalar too.
pub open spec fn spec_range_ok(r: (u32, u32)) -> bool {
    &&& is_scalar(r.0)
    &&& r.1 < 0xFFFF_FFFFu32
    &&& is_scalar((r.1 + 1) as u32)
}

/// Converts inclusive codepoint ranges into half-open `char` ranges: each
/// `(start, end)` becomes `(start, end + 1)` as characters. Succeeds exactly
/// when every range denotes scalar values; the first offending range stops
/// the conversion.
pub fn ranges_to_char_ranges(ranges: &Vec<(u32, u32)>) -> (r: Result<
    Vec<(char, char)>,
    RangeError,
>)
    ensures
        r is Ok <==> (forall|i: int| 0 <= i < ranges@.len() ==> spec_range_ok(#[trigger] ranges@[i])),
        r matches Ok(v) ==> {
            &&& v@.len() == ranges@.len()
            &&& forall|i: int|
                0 <= i < ranges@.len() ==> (#[trigger] v@[i]).0 as u32 == ranges@[i].0 && v@[i].1
                    as u32 == ranges@[i].1 + 1
        },
{
    let mut out: Vec<(char, char)> = Vec::new();
    let mut i: usize = 0;
    while i < ranges.len()
        invariant
            i <= ranges@.len(),
            out@.len() == i,
            forall|j: int| 0 <= j < i as int ==> spec_range_ok(#[trigger] ranges@[j]),
            forall|j: int|
                0 <= j < i as int ==> (#[trigger] out@[j]).0 as u32 == ranges@[j].0 && out@[j].1
                    as u32 == ranges@[j].1 + 1,
        decreases ranges@.len() - i,
    {
        let pr = ranges[i];
        let first = match char::from_u32(pr.0) {
            Some(c) => c,
            None => {
                return Err(RangeError::InvalidCodePoint);
            },
        };
        if pr.1 == 0xFFFF_FFFF {
            return Err(RangeError::InvalidCodePoint);
        }
        let past_end = match char::from_u32(pr.1 + 1) {
            Some(c) => c,
            None => {
                return Err(RangeError::InvalidCodePoint);
            },
        };
        out.push((first, past_end));
        i = i + 1;
    }
    Ok(out)
}

} // verus!
