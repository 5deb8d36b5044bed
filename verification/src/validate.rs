//! Layout validation of an untrusted byte span.
//!
//! This is the single gate that runs before a byte span is reinterpreted as a
//! record: a span passes exactly when it holds a 2-byte header followed by
//! precisely the payload bytes that the header's slot count and width declare.

use vstd::prelude::*;

use crate::header::ExceptionHeader;
use crate::header::word_from_bytes;

verus! {

/// Why a byte span is not a well-formed record.
#[derive(Clone, Copy, Debug, PartialEq, Eq, Structural)]
pub enum LayoutError {
    /// The span is too short to hold the 2-byte header.
    Truncated,
    /// The payload length does not match the header's slot count and width.
    SizeMismatch,
}

/// The header encoded little-endian by the first two bytes of a span.
pub open spec fn spec_header_of(bytes: Seq<u8>) -> ExceptionHeader
    recommends
        bytes.len() >= 2,
{
    ExceptionHeader(word_from_bytes(bytes[0], bytes[1]))
}

/// Whether a byte span is a well-formed record: a header is present and the
/// remaining length equals `num_slots * width_in_words * 2` bytes.
pub open spec fn layout_valid(bytes: Seq<u8>) -> bool {
    &&& bytes.len() >= 2
    &&& bytes.len() - 2 == spec_header_of(bytes).spec_num_slots() * spec_header_of(
        bytes,
    ).spec_width_words() * 2
}

/// Decides whether `bytes` is a well-formed record, and if not, why.
///
/// Succeeds exactly when the span holds a 2-byte header followed by exactly
/// the payload bytes the header declares; `Truncated` exactly when even the
/// header is absent, `SizeMismatch` in every remaining case.
pub fn validate(bytes: &[u8]) -> (r: Result<(), LayoutError>)
    ensures
        r is Ok <==> layout_valid(bytes@),
        r == Err::<(), LayoutError>(LayoutError::Truncated) <==> bytes@.len() < 2,
        r == Err::<(), LayoutError>(LayoutError::SizeMismatch) <==> (bytes@.len() >= 2
            && !layout_valid(bytes@)),
{
    if bytes.len() < 2 {
        return Err(LayoutError::Truncated);
    }
    let header = ExceptionHeader::decode(bytes[0], bytes[1]);
    let num_slots = header.num_slots() as usize;
    let slot_bytes: usize = if header.has_double_slots() {
        4
    } else {
        2
    };
    let expected_payload = num_slots * slot_bytes;
    if bytes.len() - 2 != expected_payload {
        return Err(LayoutError::SizeMismatch);
    }
    Ok(())
}

} // verus!
