//! The logical description of an exception record, its encoder, and its
//! decoder.
//!
//! [`ExceptionDescription`] names every optional field of a record with an
//! explicit present/absent value. [`build`] packs a description into the
//! minimal wire form: presence bits set exactly for the present fields, a
//! single record-wide width chosen double exactly when some present value
//! needs more than 16 bits, and slots emitted in ascending bit order.
//! [`decode`] validates a byte span and recovers the description it encodes.
//! [`lemma_round_trip`] proves that decoding a built record recovers the
//! description exactly.

use vstd::prelude::*;
use vstd::utf8::char_is_scalar;
use vstd::utf8::char_u32_cast;
use vstd::utf8::is_scalar;

use crate::header::ExceptionHeader;
use crate::header::bit_set;
use crate::header::count_present_below;
use crate::header::word_from_bytes;
use crate::record::Exception;
use crate::record::spec_raw_slot_value;
use crate::record::spec_word_at;
use crate::slots::DotType;
use crate::slots::ExceptionSlot;
use crate::slots::MappingKind;
use crate::validate::LayoutError;
use crate::validate::layout_valid;
use crate::validate::spec_header_of;

verus! {

/// A delta stored as an unsigned magnitude plus an explicit sign, mirroring
/// the wire form (the sign lives in a header flag, not in the slot).
#[derive(Clone, Copy, Debug, PartialEq, Eq, Structural)]
pub struct SignedDelta {
    pub magnitude: u32,
    pub is_negative: bool,
}

/// The logical, fully-populated content of one exception record.
#[derive(Clone, Copy, Debug, PartialEq, Eq)]
pub struct ExceptionDescription {
    pub lower: Option<char>,
    pub fold: Option<char>,
    pub upper: Option<char>,
    pub title: Option<char>,
    pub delta: Option<SignedDelta>,
    pub closure_index: Option<u32>,
    pub full_mappings_index: Option<u32>,
    pub no_simple_case_folding: bool,
    pub is_sensitive: bool,
    pub has_conditional_special: bool,
    pub has_conditional_fold: bool,
    pub dot_type: DotType,
}

impl ExceptionDescription {
    /// A description with every field absent and every flag clear.
    pub fn empty() -> (r: ExceptionDescription)
        ensures
            r == spec_empty_description(),
    {
        ExceptionDescription {
            lower: None,
            fold: None,
            upper: None,
            title: None,
            delta: None,
            closure_index: None,
            full_mappings_index: None,
            no_simple_case_folding: false,
            is_sensitive: false,
            has_conditional_special: false,
            has_conditional_fold: false,
            dot_type: DotType::NoDot,
        }
    }
}

pub open spec fn spec_empty_description() -> ExceptionDescription {
    ExceptionDescription {
        lower: None,
        fold: None,
        upper: None,
        title: None,
        delta: None,
        closure_index: None,
        full_mappings_index: None,
        no_simple_case_folding: false,
        is_sensitive: false,
        has_conditional_special: false,
        has_conditional_fold: false,
        dot_type: DotType::NoDot,
    }
}

pub open spec fn spec_opt_u32_of_char(c: Option<char>) -> Option<u32> {
    match c {
        Some(ch) => Some(ch as u32),
        None => None,
    }
}

/// The raw 32-bit value a description stores in the given slot, when present.
pub open spec fn spec_slot_field(d: ExceptionDescription, slot: ExceptionSlot) -> Option<u32> {
    match slot {
        ExceptionSlot::Lower => spec_opt_u32_of_char(d.lower),
        ExceptionSlot::Fold => spec_opt_u32_of_char(d.fold),
        ExceptionSlot::Upper => spec_opt_u32_of_char(d.upper),
        ExceptionSlot::Title => spec_opt_u32_of_char(d.title),
        ExceptionSlot::Delta => match d.delta {
            Some(sd) => Some(sd.magnitude),
            None => None,
        },
        ExceptionSlot::Closure => d.closure_index,
        ExceptionSlot::FullMappings => d.full_mappings_index,
    }
}

pub open spec fn spec_over_16(v: Option<u32>) -> bool {
    v matches Some(x) && x > 0xFFFF
}

/// Whether some present value needs more than 16 bits, forcing double-width
/// encoding for the whole record.
pub open spec fn spec_needs_double(d: ExceptionDescription) -> bool {
    ||| spec_over_16(spec_slot_field(d, ExceptionSlot::Lower))
    ||| spec_over_16(spec_slot_field(d, ExceptionSlot::Fold))
    ||| spec_over_16(spec_slot_field(d, ExceptionSlot::Upper))
    ||| spec_over_16(spec_slot_field(d, ExceptionSlot::Title))
    ||| spec_over_16(spec_slot_field(d, ExceptionSlot::Delta))
    ||| spec_over_16(spec_slot_field(d, ExceptionSlot::Closure))
    ||| spec_over_16(spec_slot_field(d, ExceptionSlot::FullMappings))
}

pub open spec fn spec_delta_negative(d: ExceptionDescription) -> bool {
    d.delta matches Some(sd) && sd.is_negative
}

pub open spec fn spec_presence_bit(v: Option<u32>) -> u16 {
    if v is Some {
        1
    } else {
        0
    }
}

/// The low byte of the packed header: one presence bit per present field
/// (bit 5 stays clear).
pub open spec fn spec_header_low(d: ExceptionDescription) -> u16 {
    (spec_presence_bit(spec_slot_field(d, ExceptionSlot::Lower)) + 2 * spec_presence_bit(
        spec_slot_field(d, ExceptionSlot::Fold),
    ) + 4 * spec_presence_bit(spec_slot_field(d, ExceptionSlot::Upper)) + 8 * spec_presence_bit(
        spec_slot_field(d, ExceptionSlot::Title),
    ) + 16 * spec_presence_bit(spec_slot_field(d, ExceptionSlot::Delta)) + 64 * spec_presence_bit(
        spec_slot_field(d, ExceptionSlot::Closure),
    ) + 128 * spec_presence_bit(spec_slot_field(d, ExceptionSlot::FullMappings))) as u16
}

/// The high byte of the packed header: the width bit, the flag bits and the
/// dot-type bits.
pub open spec fn spec_header_high(d: ExceptionDescription) -> u16 {
    ((if spec_needs_double(d) {
        1int
    } else {
        0int
    }) + (if d.no_simple_case_folding {
        2int
    } else {
        0int
    }) + (if spec_delta_negative(d) {
        4int
    } else {
        0int
    }) + (if d.is_sensitive {
        8int
    } else {
        0int
    }) + 16 * d.dot_type.spec_bits() + (if d.has_conditional_special {
        64int
    } else {
        0int
    }) + (if d.has_conditional_fold {
        128int
    } else {
        0int
    })) as u16
}

/// The packed header a description encodes to.
pub open spec fn spec_header_bits(d: ExceptionDescription) -> u16 {
    (spec_header_low(d) + 256 * spec_header_high(d)) as u16
}

/// The words that encode one value: the value itself in a single-width
/// record, or the high word followed by the low word in a double-width one.
pub open spec fn spec_value_words(v: u32, double: bool) -> Seq<u16> {
    if double {
        seq![(v / 0x10000) as u16, (v % 0x10000) as u16]
    } else {
        seq![v as u16]
    }
}

pub open spec fn spec_opt_words(v: Option<u32>, double: bool) -> Seq<u16> {
    match v {
        Some(x) => spec_value_words(x, double),
        None => Seq::empty(),
    }
}

/// The payload of a built record: the present slots' words in ascending
/// slot-kind bit order.
pub open spec fn spec_payload_words(d: ExceptionDescription) -> Seq<u16> {
    let dbl = spec_needs_double(d);
    spec_opt_words(spec_slot_field(d, ExceptionSlot::Lower), dbl) + spec_opt_words(
        spec_slot_field(d, ExceptionSlot::Fold),
        dbl,
    ) + spec_opt_words(spec_slot_field(d, ExceptionSlot::Upper), dbl) + spec_opt_words(
        spec_slot_field(d, ExceptionSlot::Title),
        dbl,
    ) + spec_opt_words(spec_slot_field(d, ExceptionSlot::Delta), dbl) + spec_opt_words(
        spec_slot_field(d, ExceptionSlot::Closure),
        dbl,
    ) + spec_opt_words(spec_slot_field(d, ExceptionSlot::FullMappings), dbl)
}

/// Little-endian byte serialization of a word sequence.
pub open spec fn words_to_bytes(ws: Seq<u16>) -> Seq<u8>
    decreases ws.len(),
{
    if ws.len() == 0 {
        Seq::empty()
    } else {
        seq![(ws[0] % 256) as u8, (ws[0] / 256) as u8] + words_to_bytes(ws.skip(1))
    }
}

/// The full wire form of a description: the 2-byte little-endian header, then
/// the payload words.
pub open spec fn spec_build(d: ExceptionDescription) -> Seq<u8> {
    seq![
        (spec_header_bits(d) % 256) as u8,
        (spec_header_bits(d) / 256) as u8,
    ] + words_to_bytes(spec_payload_words(d))
}

pub proof fn lemma_words_to_bytes_len(ws: Seq<u16>)
    ensures
        words_to_bytes(ws).len() == 2 * ws.len(),
    decreases ws.len(),
{
    if ws.len() > 0 {
        lemma_words_to_bytes_len(ws.skip(1));
    }
}

pub proof fn lemma_words_to_bytes_index(ws: Seq<u16>, j: int)
    requires
        0 <= j < ws.len(),
    ensures
        words_to_bytes(ws).len() == 2 * ws.len(),
        words_to_bytes(ws)[2 * j] == (ws[j] % 256) as u8,
        words_to_bytes(ws)[2 * j + 1] == (ws[j] / 256) as u8,
        spec_word_at(words_to_bytes(ws), j) == ws[j],
    decreases j,
{
    lemma_words_to_bytes_len(ws);
    lemma_words_to_bytes_len(ws.skip(1));
    if j == 0 {
    } else {
        lemma_words_to_bytes_index(ws.skip(1), j - 1);
    }
}

pub proof fn lemma_words_to_bytes_concat(a: Seq<u16>, b: Seq<u16>)
    ensures
        words_to_bytes(a + b) == words_to_bytes(a) + words_to_bytes(b),
    decreases a.len(),
{
    if a.len() == 0 {
        assert(a + b =~= b);
        assert(words_to_bytes(a) + words_to_bytes(b) =~= words_to_bytes(b));
    } else {
        assert((a + b).skip(1) =~= a.skip(1) + b);
        lemma_words_to_bytes_concat(a.skip(1), b);
        assert(words_to_bytes(a + b) =~= words_to_bytes(a) + words_to_bytes(b));
    }
}

/// Bit-level reading of the packed header: each presence bit reflects its
/// field, bit 5 stays clear, and the width, sign, flag and dot bits reflect
/// the description.
proof fn lemma_header_bits(d: ExceptionDescription)
    ensures
        ({
            let h = ExceptionHeader(spec_header_bits(d));
            &&& forall|slot: ExceptionSlot| #[trigger] h.spec_has_slot(slot) == (spec_slot_field(
                d,
                slot,
            ) is Some)
            &&& !bit_set(h.0, 5)
            &&& h.spec_double() == spec_needs_double(d)
            &&& h.spec_no_simple_case_folding() == d.no_simple_case_folding
            &&& h.spec_delta_is_negative() == spec_delta_negative(d)
            &&& h.spec_is_sensitive() == d.is_sensitive
            &&& h.spec_dot_bits() == d.dot_type.spec_bits()
            &&& h.spec_has_conditional_special() == d.has_conditional_special
            &&& h.spec_has_conditional_fold() == d.has_conditional_fold
        }),
{
    let t0 = spec_presence_bit(spec_slot_field(d, ExceptionSlot::Lower));
    let t1 = spec_presence_bit(spec_slot_field(d, ExceptionSlot::Fold));
    let t2 = spec_presence_bit(spec_slot_field(d, ExceptionSlot::Upper));
    let t3 = spec_presence_bit(spec_slot_field(d, ExceptionSlot::Title));
    let t4 = spec_presence_bit(spec_slot_field(d, ExceptionSlot::Delta));
    let t6 = spec_presence_bit(spec_slot_field(d, ExceptionSlot::Closure));
    let t7 = spec_presence_bit(spec_slot_field(d, ExceptionSlot::FullMappings));
    let t8: u16 = if spec_needs_double(d) {
        1
    } else {
        0
    };
    let t9: u16 = if d.no_simple_case_folding {
        1
    } else {
        0
    };
    let t10: u16 = if spec_delta_negative(d) {
        1
    } else {
        0
    };
    let t11: u16 = if d.is_sensitive {
        1
    } else {
        0
    };
    let dt = d.dot_type.spec_bits();
    let t14: u16 = if d.has_conditional_special {
        1
    } else {
        0
    };
    let t15: u16 = if d.has_conditional_fold {
        1
    } else {
        0
    };
    let lo = spec_header_low(d);
    let hi = spec_header_high(d);
    let h = spec_header_bits(d);
    assert(lo == t0 + 2 * t1 + 4 * t2 + 8 * t3 + 16 * t4 + 64 * t6 + 128 * t7);
    assert(hi == t8 + 2 * t9 + 4 * t10 + 8 * t11 + 16 * dt + 64 * t14 + 128 * t15);
    assert(h == lo + 256 * hi);
    assert((h & (1u16 << 0u16) != 0) == (t0 == 1) && (h & (1u16 << 1u16) != 0) == (t1 == 1) && (h
        & (1u16 << 2u16) != 0) == (t2 == 1) && (h & (1u16 << 3u16) != 0) == (t3 == 1) && (h & (1u16
        << 4u16) != 0) == (t4 == 1) && (h & (1u16 << 5u16) == 0) && (h & (1u16 << 6u16) != 0) == (
    t6 == 1) && (h & (1u16 << 7u16) != 0) == (t7 == 1) && (h & (1u16 << 8u16) != 0) == (t8 == 1)
        && (h & (1u16 << 9u16) != 0) == (t9 == 1) && (h & (1u16 << 10u16) != 0) == (t10 == 1) && (h
        & (1u16 << 11u16) != 0) == (t11 == 1) && ((h >> 12u16) & 3) == dt && (h & (1u16 << 14u16)
        != 0) == (t14 == 1) && (h & (1u16 << 15u16) != 0) == (t15 == 1)) by (bit_vector)
        requires
            t0 <= 1 && t1 <= 1 && t2 <= 1 && t3 <= 1 && t4 <= 1 && t6 <= 1 && t7 <= 1 && t8 <= 1
                && t9 <= 1 && t10 <= 1 && t11 <= 1 && dt <= 3 && t14 <= 1 && t15 <= 1,
            lo == t0 + 2 * t1 + 4 * t2 + 8 * t3 + 16 * t4 + 64 * t6 + 128 * t7,
            hi == t8 + 2 * t9 + 4 * t10 + 8 * t11 + 16 * dt + 64 * t14 + 128 * t15,
            h == lo + 256 * hi,
    ;
    assert forall|slot: ExceptionSlot| #[trigger]
        ExceptionHeader(h).spec_has_slot(slot) == (spec_slot_field(d, slot) is Some) by {
        match slot {
            ExceptionSlot::Lower => {},
            ExceptionSlot::Fold => {},
            ExceptionSlot::Upper => {},
            ExceptionSlot::Title => {},
            ExceptionSlot::Delta => {},
            ExceptionSlot::Closure => {},
            ExceptionSlot::FullMappings => {},
        }
    }
}

/// How many of the seven optional fields are present.
pub open spec fn spec_num_present(d: ExceptionDescription) -> nat {
    (spec_presence_bit(spec_slot_field(d, ExceptionSlot::Lower)) + spec_presence_bit(
        spec_slot_field(d, ExceptionSlot::Fold),
    ) + spec_presence_bit(spec_slot_field(d, ExceptionSlot::Upper)) + spec_presence_bit(
        spec_slot_field(d, ExceptionSlot::Title),
    ) + spec_presence_bit(spec_slot_field(d, ExceptionSlot::Delta)) + spec_presence_bit(
        spec_slot_field(d, ExceptionSlot::Closure),
    ) + spec_presence_bit(spec_slot_field(d, ExceptionSlot::FullMappings))) as nat
}

/// The built header's slot count equals the number of present fields, and
/// each slot's position is the number of present fields at lower bit indices.
proof fn lemma_header_counts(d: ExceptionDescription)
    ensures
        ({
            let h = ExceptionHeader(spec_header_bits(d));
            &&& h.spec_num_slots() == spec_num_present(d)
            &&& h.spec_slot_position(ExceptionSlot::Lower) == 0
            &&& h.spec_slot_position(ExceptionSlot::Fold) == spec_presence_bit(
                spec_slot_field(d, ExceptionSlot::Lower),
            )
            &&& h.spec_slot_position(ExceptionSlot::Upper) == spec_presence_bit(
                spec_slot_field(d, ExceptionSlot::Lower),
            ) + spec_presence_bit(spec_slot_field(d, ExceptionSlot::Fold))
            &&& h.spec_slot_position(ExceptionSlot::Title) == spec_presence_bit(
                spec_slot_field(d, ExceptionSlot::Lower),
            ) + spec_presence_bit(spec_slot_field(d, ExceptionSlot::Fold)) + spec_presence_bit(
                spec_slot_field(d, ExceptionSlot::Upper),
            )
            &&& h.spec_slot_position(ExceptionSlot::Delta) == spec_presence_bit(
                spec_slot_field(d, ExceptionSlot::Lower),
            ) + spec_presence_bit(spec_slot_field(d, ExceptionSlot::Fold)) + spec_presence_bit(
                spec_slot_field(d, ExceptionSlot::Upper),
            ) + spec_presence_bit(spec_slot_field(d, ExceptionSlot::Title))
            &&& h.spec_slot_position(ExceptionSlot::Closure) == spec_presence_bit(
                spec_slot_field(d, ExceptionSlot::Lower),
            ) + spec_presence_bit(spec_slot_field(d, ExceptionSlot::Fold)) + spec_presence_bit(
                spec_slot_field(d, ExceptionSlot::Upper),
            ) + spec_presence_bit(spec_slot_field(d, ExceptionSlot::Title)) + spec_presence_bit(
                spec_slot_field(d, ExceptionSlot::Delta),
            )
            &&& h.spec_slot_position(ExceptionSlot::FullMappings) == spec_num_present(d)
                - spec_presence_bit(spec_slot_field(d, ExceptionSlot::FullMappings))
        }),
{
    lemma_header_bits(d);
    let h = spec_header_bits(d);
    assert(count_present_below(h, 1) == count_present_below(h, 0) + if bit_set(h, 0) {
        1nat
    } else {
        0nat
    });
    assert(count_present_below(h, 2) == count_present_below(h, 1) + if bit_set(h, 1) {
        1nat
    } else {
        0nat
    });
    assert(count_present_below(h, 3) == count_present_below(h, 2) + if bit_set(h, 2) {
        1nat
    } else {
        0nat
    });
    assert(count_present_below(h, 4) == count_present_below(h, 3) + if bit_set(h, 3) {
        1nat
    } else {
        0nat
    });
    assert(count_present_below(h, 5) == count_present_below(h, 4) + if bit_set(h, 4) {
        1nat
    } else {
        0nat
    });
    assert(count_present_below(h, 6) == count_present_below(h, 5) + if bit_set(h, 5) {
        1nat
    } else {
        0nat
    });
    assert(count_present_below(h, 7) == count_present_below(h, 6) + if bit_set(h, 6) {
        1nat
    } else {
        0nat
    });
    assert(count_present_below(h, 8) == count_present_below(h, 7) + if bit_set(h, 7) {
        1nat
    } else {
        0nat
    });
    assert(ExceptionHeader(h).spec_has_slot(ExceptionSlot::Lower) == (spec_slot_field(
        d,
        ExceptionSlot::Lower,
    ) is Some));
    assert(ExceptionHeader(h).spec_has_slot(ExceptionSlot::Fold) == (spec_slot_field(
        d,
        ExceptionSlot::Fold,
    ) is Some));
    assert(ExceptionHeader(h).spec_has_slot(ExceptionSlot::Upper) == (spec_slot_field(
        d,
        ExceptionSlot::Upper,
    ) is Some));
    assert(ExceptionHeader(h).spec_has_slot(ExceptionSlot::Title) == (spec_slot_field(
        d,
        ExceptionSlot::Title,
    ) is Some));
    assert(ExceptionHeader(h).spec_has_slot(ExceptionSlot::Delta) == (spec_slot_field(
        d,
        ExceptionSlot::Delta,
    ) is Some));
    assert(ExceptionHeader(h).spec_has_slot(ExceptionSlot::Closure) == (spec_slot_field(
        d,
        ExceptionSlot::Closure,
    ) is Some));
    assert(ExceptionHeader(h).spec_has_slot(ExceptionSlot::FullMappings) == (spec_slot_field(
        d,
        ExceptionSlot::FullMappings,
    ) is Some));
}

/// The payload of a built record holds exactly `num_present * width` words.
proof fn lemma_payload_len(d: ExceptionDescription)
    ensures
        spec_payload_words(d).len() == spec_num_present(d) * (if spec_needs_double(d) {
            2int
        } else {
            1int
        }),
{
    let dbl = spec_needs_double(d);
    let wd: int = if dbl {
        2
    } else {
        1
    };
    let i0 = spec_presence_bit(spec_slot_field(d, ExceptionSlot::Lower)) as int;
    let i1 = spec_presence_bit(spec_slot_field(d, ExceptionSlot::Fold)) as int;
    let i2 = spec_presence_bit(spec_slot_field(d, ExceptionSlot::Upper)) as int;
    let i3 = spec_presence_bit(spec_slot_field(d, ExceptionSlot::Title)) as int;
    let i4 = spec_presence_bit(spec_slot_field(d, ExceptionSlot::Delta)) as int;
    let i6 = spec_presence_bit(spec_slot_field(d, ExceptionSlot::Closure)) as int;
    let i7 = spec_presence_bit(spec_slot_field(d, ExceptionSlot::FullMappings)) as int;
    assert(spec_opt_words(spec_slot_field(d, ExceptionSlot::Lower), dbl).len() == i0 * wd);
    assert(spec_opt_words(spec_slot_field(d, ExceptionSlot::Fold), dbl).len() == i1 * wd);
    assert(spec_opt_words(spec_slot_field(d, ExceptionSlot::Upper), dbl).len() == i2 * wd);
    assert(spec_opt_words(spec_slot_field(d, ExceptionSlot::Title), dbl).len() == i3 * wd);
    assert(spec_opt_words(spec_slot_field(d, ExceptionSlot::Delta), dbl).len() == i4 * wd);
    assert(spec_opt_words(spec_slot_field(d, ExceptionSlot::Closure), dbl).len() == i6 * wd);
    assert(spec_opt_words(spec_slot_field(d, ExceptionSlot::FullMappings), dbl).len() == i7 * wd);
    assert(spec_payload_words(d).len() == (i0 + i1 + i2 + i3 + i4 + i6 + i7) * wd) by (nonlinear_arith)
        requires
            spec_payload_words(d).len() == i0 * wd + i1 * wd + i2 * wd + i3 * wd + i4 * wd + i6
                * wd + i7 * wd,
    ;
}

/// A present field's value is recovered intact from the built payload.
#[verifier::rlimit(60)]
proof fn lemma_payload_slot(d: ExceptionDescription, slot: ExceptionSlot)
    requires
        spec_slot_field(d, slot) is Some,
    ensures
        spec_raw_slot_value(
            ExceptionHeader(spec_header_bits(d)),
            words_to_bytes(spec_payload_words(d)),
            slot,
        ) == spec_slot_field(d, slot)->0,
{
    lemma_header_bits(d);
    lemma_header_counts(d);
    lemma_payload_len(d);
    let h = ExceptionHeader(spec_header_bits(d));
    let dbl = spec_needs_double(d);
    let wd: int = if dbl {
        2
    } else {
        1
    };
    let f0 = spec_slot_field(d, ExceptionSlot::Lower);
    let f1 = spec_slot_field(d, ExceptionSlot::Fold);
    let f2 = spec_slot_field(d, ExceptionSlot::Upper);
    let f3 = spec_slot_field(d, ExceptionSlot::Title);
    let f4 = spec_slot_field(d, ExceptionSlot::Delta);
    let f6 = spec_slot_field(d, ExceptionSlot::Closure);
    let f7 = spec_slot_field(d, ExceptionSlot::FullMappings);
    let w0 = spec_opt_words(f0, dbl);
    let w1 = spec_opt_words(f1, dbl);
    let w2 = spec_opt_words(f2, dbl);
    let w3 = spec_opt_words(f3, dbl);
    let w4 = spec_opt_words(f4, dbl);
    let w6 = spec_opt_words(f6, dbl);
    let w7 = spec_opt_words(f7, dbl);
    let w = spec_payload_words(d);
    assert(w == w0 + w1 + w2 + w3 + w4 + w6 + w7);
    let v = spec_slot_field(d, slot)->0;
    let vw = spec_value_words(v, dbl);
    let pos = h.spec_slot_position(slot) as int;
    let start: int = match slot {
        ExceptionSlot::Lower => 0,
        ExceptionSlot::Fold => w0.len() as int,
        ExceptionSlot::Upper => (w0.len() + w1.len()) as int,
        ExceptionSlot::Title => (w0.len() + w1.len() + w2.len()) as int,
        ExceptionSlot::Delta => (w0.len() + w1.len() + w2.len() + w3.len()) as int,
        ExceptionSlot::Closure => (w0.len() + w1.len() + w2.len() + w3.len() + w4.len()) as int,
        ExceptionSlot::FullMappings => (w0.len() + w1.len() + w2.len() + w3.len() + w4.len()
            + w6.len()) as int,
    };
    if dbl {
        assert(start == 2 * pos);
        assert(w[start] == vw[0] && w[start + 1] == vw[1]);
        lemma_words_to_bytes_index(w, start);
        lemma_words_to_bytes_index(w, start + 1);
        vstd::arithmetic::div_mod::lemma_fundamental_div_mod(v as int, 0x10000);
    } else {
        assert(start == pos);
        assert(w[start] == vw[0]);
        lemma_words_to_bytes_index(w, start);
        assert(v <= 0xFFFF);
    }
}

/// The wire shape of a built record: it passes layout validation, its first
/// two bytes decode to the built header, and the rest is the payload.
pub proof fn lemma_build_wire(d: ExceptionDescription)
    ensures
        layout_valid(spec_build(d)),
        spec_header_of(spec_build(d)) == ExceptionHeader(spec_header_bits(d)),
        spec_build(d).skip(2) == words_to_bytes(spec_payload_words(d)),
{
    lemma_header_bits(d);
    lemma_header_counts(d);
    lemma_payload_len(d);
    lemma_words_to_bytes_len(spec_payload_words(d));
    let b = spec_build(d);
    let hb = spec_header_bits(d);
    vstd::arithmetic::div_mod::lemma_fundamental_div_mod(hb as int, 256);
    assert(word_from_bytes((hb % 256) as u8, (hb / 256) as u8) == hb);
    assert(b.skip(2) =~= words_to_bytes(spec_payload_words(d)));
    let h = ExceptionHeader(hb);
    assert(b.len() - 2 == h.spec_num_slots() * h.spec_width_words() * 2) by (nonlinear_arith)
        requires
            b.len() - 2 == 2 * (h.spec_num_slots() * (if h.spec_double() {
                2int
            } else {
                1int
            })),
            h.spec_width_words() == (if h.spec_double() {
                2nat
            } else {
                1nat
            }),
    ;
}

/// Why a byte span does not decode to a description.
#[derive(Clone, Copy, Debug, PartialEq, Eq)]
pub enum DecodeError {
    /// The span failed layout validation.
    Layout(LayoutError),
    /// A codepoint slot holds a value that is no Unicode scalar.
    InvalidCodePoint,
}

/// Whether the slot for a mapping kind, if present, stores a Unicode scalar.
pub open spec fn spec_char_ok(h: ExceptionHeader, payload: Seq<u8>, slot: ExceptionSlot) -> bool {
    h.spec_has_slot(slot) ==> is_scalar(spec_raw_slot_value(h, payload, slot))
}

/// Whether every present codepoint slot stores a Unicode scalar.
pub open spec fn spec_chars_ok(h: ExceptionHeader, payload: Seq<u8>) -> bool {
    &&& spec_char_ok(h, payload, ExceptionSlot::Lower)
    &&& spec_char_ok(h, payload, ExceptionSlot::Fold)
    &&& spec_char_ok(h, payload, ExceptionSlot::Upper)
    &&& spec_char_ok(h, payload, ExceptionSlot::Title)
}

pub open spec fn spec_opt_char_at(h: ExceptionHeader, payload: Seq<u8>, slot: ExceptionSlot) -> Option<char> {
    if h.spec_has_slot(slot) {
        Some(spec_raw_slot_value(h, payload, slot) as char)
    } else {
        None
    }
}

pub open spec fn spec_opt_u32_at(h: ExceptionHeader, payload: Seq<u8>, slot: ExceptionSlot) -> Option<u32> {
    if h.spec_has_slot(slot) {
        Some(spec_raw_slot_value(h, payload, slot))
    } else {
        None
    }
}

/// The description a well-formed record states, field by field.
pub open spec fn spec_described(h: ExceptionHeader, payload: Seq<u8>) -> ExceptionDescription {
    ExceptionDescription {
        lower: spec_opt_char_at(h, payload, ExceptionSlot::Lower),
        fold: spec_opt_char_at(h, payload, ExceptionSlot::Fold),
        upper: spec_opt_char_at(h, payload, ExceptionSlot::Upper),
        title: spec_opt_char_at(h, payload, ExceptionSlot::Title),
        delta: if h.spec_has_slot(ExceptionSlot::Delta) {
            Some(
                SignedDelta {
                    magnitude: spec_raw_slot_value(h, payload, ExceptionSlot::Delta),
                    is_negative: h.spec_delta_is_negative(),
                },
            )
        } else {
            None
        },
        closure_index: spec_opt_u32_at(h, payload, ExceptionSlot::Closure),
        full_mappings_index: spec_opt_u32_at(h, payload, ExceptionSlot::FullMappings),
        no_simple_case_folding: h.spec_no_simple_case_folding(),
        is_sensitive: h.spec_is_sensitive(),
        has_conditional_special: h.spec_has_conditional_special(),
        has_conditional_fold: h.spec_has_conditional_fold(),
        dot_type: DotType::spec_from_bits(h.spec_dot_bits()),
    }
}

/// What decoding a byte span yields: the exact layout error of an ill-formed
/// span, a corruption error when a codepoint slot holds no scalar, and the
/// record's description otherwise.
pub open spec fn spec_decode(bytes: Seq<u8>) -> Result<ExceptionDescription, DecodeError> {
    if bytes.len() < 2 {
        Err(DecodeError::Layout(LayoutError::Truncated))
    } else if !layout_valid(bytes) {
        Err(DecodeError::Layout(LayoutError::SizeMismatch))
    } else if !spec_chars_ok(spec_header_of(bytes), bytes.skip(2)) {
        Err(DecodeError::InvalidCodePoint)
    } else {
        Ok(spec_described(spec_header_of(bytes), bytes.skip(2)))
    }
}

/// The description a byte span encodes, when it encodes one.
pub open spec fn spec_decode_record(bytes: Seq<u8>) -> Option<ExceptionDescription> {
    match spec_decode(bytes) {
        Ok(d) => Some(d),
        Err(_) => None,
    }
}

/// Round-trip law: decoding a built record recovers the description exactly —
/// every present field with its original value, every absent field absent,
/// every flag and the dot type intact.
pub proof fn lemma_round_trip(d: ExceptionDescription)
    ensures
        spec_decode(spec_build(d)) == Ok::<ExceptionDescription, DecodeError>(d),
        spec_decode_record(spec_build(d)) == Some(d),
{
    lemma_build_wire(d);
    lemma_header_bits(d);
    let b = spec_build(d);
    let h = ExceptionHeader(spec_header_bits(d));
    let payload = words_to_bytes(spec_payload_words(d));
    assert(b.skip(2) == payload);
    if d.lower is Some {
        lemma_payload_slot(d, ExceptionSlot::Lower);
        char_is_scalar(d.lower->0);
        char_u32_cast(d.lower->0, d.lower->0 as u32);
    }
    if d.fold is Some {
        lemma_payload_slot(d, ExceptionSlot::Fold);
        char_is_scalar(d.fold->0);
        char_u32_cast(d.fold->0, d.fold->0 as u32);
    }
    if d.upper is Some {
        lemma_payload_slot(d, ExceptionSlot::Upper);
        char_is_scalar(d.upper->0);
        char_u32_cast(d.upper->0, d.upper->0 as u32);
    }
    if d.title is Some {
        lemma_payload_slot(d, ExceptionSlot::Title);
        char_is_scalar(d.title->0);
        char_u32_cast(d.title->0, d.title->0 as u32);
    }
    if d.delta is Some {
        lemma_payload_slot(d, ExceptionSlot::Delta);
    }
    if d.closure_index is Some {
        lemma_payload_slot(d, ExceptionSlot::Closure);
    }
    if d.full_mappings_index is Some {
        lemma_payload_slot(d, ExceptionSlot::FullMappings);
    }
    assert(DotType::spec_from_bits(d.dot_type.spec_bits()) == d.dot_type);
    assert(spec_described(h, payload) == d);
}

fn opt_char_value(c: &Option<char>) -> (r: Option<u32>)
    ensures
        r == spec_opt_u32_of_char(*c),
{
    match c {
        Some(ch) => Some(*ch as u32),
        None => None,
    }
}

fn opt_over_16(v: &Option<u32>) -> (r: bool)
    ensures
        r == spec_over_16(*v),
{
    match v {
        Some(x) => *x > 0xFFFF,
        None => false,
    }
}

/// Whether some present value of `d` needs more than 16 bits, so that the
/// whole record must be encoded double-width.
pub fn needs_double(d: &ExceptionDescription) -> (r: bool)
    ensures
        r == spec_needs_double(*d),
{
    let delta_v = match &d.delta {
        Some(sd) => Some(sd.magnitude),
        None => None,
    };
    let lower = opt_char_value(&d.lower);
    let fold = opt_char_value(&d.fold);
    let upper = opt_char_value(&d.upper);
    let title = opt_char_value(&d.title);
    opt_over_16(&lower) || opt_over_16(&fold) || opt_over_16(&upper) || opt_over_16(&title)
        || opt_over_16(&delta_v) || opt_over_16(&d.closure_index) || opt_over_16(
        &d.full_mappings_index,
    )
}

/// Computes the low header byte: the presence bitmap.
fn presence_low(d: &ExceptionDescription) -> (r: u16)
    ensures
        r == spec_header_low(*d),
        r <= 255,
{
    (if d.lower.is_some() {
        1u16
    } else {
        0u16
    }) + (if d.fold.is_some() {
        2u16
    } else {
        0u16
    }) + (if d.upper.is_some() {
        4u16
    } else {
        0u16
    }) + (if d.title.is_some() {
        8u16
    } else {
        0u16
    }) + (if d.delta.is_some() {
        16u16
    } else {
        0u16
    }) + (if d.closure_index.is_some() {
        64u16
    } else {
        0u16
    }) + (if d.full_mappings_index.is_some() {
        128u16
    } else {
        0u16
    })
}

/// Computes the high header byte: width, flags and dot type.
fn flags_high(d: &ExceptionDescription) -> (r: u16)
    ensures
        r == spec_header_high(*d),
        r <= 255,
{
    let delta_negative = match &d.delta {
        Some(sd) => sd.is_negative,
        None => false,
    };
    (if needs_double(d) {
        1u16
    } else {
        0u16
    }) + (if d.no_simple_case_folding {
        2u16
    } else {
        0u16
    }) + (if delta_negative {
        4u16
    } else {
        0u16
    }) + (if d.is_sensitive {
        8u16
    } else {
        0u16
    }) + d.dot_type.bits() * 16 + (if d.has_conditional_special {
        64u16
    } else {
        0u16
    }) + (if d.has_conditional_fold {
        128u16
    } else {
        0u16
    })
}

/// Computes the packed header of a description.
fn header_value(d: &ExceptionDescription) -> (r: u16)
    ensures
        r == spec_header_bits(*d),
{
    let low = presence_low(d);
    let high = flags_high(d);
    low + 256 * high
}

/// Appends the words of one value, little-endian, high word first when
/// double-width.
fn push_value(out: &mut Vec<u8>, v: u32, double: bool)
    requires
        !double ==> v <= 0xFFFF,
    ensures
        final(out)@ == old(out)@ + words_to_bytes(spec_value_words(v, double)),
{
    if double {
        let hi = (v / 0x10000) as u16;
        let lo = (v % 0x10000) as u16;
        out.push((hi % 256) as u8);
        out.push((hi / 256) as u8);
        out.push((lo % 256) as u8);
        out.push((lo / 256) as u8);
        proof {
            reveal_with_fuel(words_to_bytes, 4);
            let ws = spec_value_words(v, true);
            assert(ws.skip(1) =~= seq![(v % 0x10000) as u16]);
            assert(ws.skip(1).skip(1) =~= Seq::<u16>::empty());
            assert(out@ =~= old(out)@ + words_to_bytes(ws));
        }
    } else {
        let w = v as u16;
        out.push((w % 256) as u8);
        out.push((w / 256) as u8);
        proof {
            reveal_with_fuel(words_to_bytes, 3);
            let ws = spec_value_words(v, false);
            assert(ws.skip(1) =~= Seq::<u16>::empty());
            assert(out@ =~= old(out)@ + words_to_bytes(ws));
        }
    }
}

/// Appends the words of an optional value: nothing when absent.
fn push_opt(out: &mut Vec<u8>, v: &Option<u32>, double: bool)
    requires
        !double ==> !spec_over_16(*v),
    ensures
        final(out)@ == old(out)@ + words_to_bytes(spec_opt_words(*v, double)),
{
    match v {
        Some(x) => push_value(out, *x, double),
        None => {
            proof {
                assert(out@ =~= old(out)@ + words_to_bytes(spec_opt_words(*v, double)));
            }
        },
    }
}

/// Packs a description into its minimal wire form: presence bits set exactly
/// for the present fields, one record-wide width, slots in ascending bit
/// order. The result passes validation and decodes back to `d`.
pub fn build(d: &ExceptionDescription) -> (r: Vec<u8>)
    ensures
        r@ == spec_build(*d),
        layout_valid(r@),
        spec_decode(r@) == Ok::<ExceptionDescription, DecodeError>(*d),
{
    let ghost dbl = spec_needs_double(*d);
    let ghost w0 = spec_opt_words(spec_slot_field(*d, ExceptionSlot::Lower), dbl);
    let ghost w1 = spec_opt_words(spec_slot_field(*d, ExceptionSlot::Fold), dbl);
    let ghost w2 = spec_opt_words(spec_slot_field(*d, ExceptionSlot::Upper), dbl);
    let ghost w3 = spec_opt_words(spec_slot_field(*d, ExceptionSlot::Title), dbl);
    let ghost w4 = spec_opt_words(spec_slot_field(*d, ExceptionSlot::Delta), dbl);
    let ghost w6 = spec_opt_words(spec_slot_field(*d, ExceptionSlot::Closure), dbl);
    let ghost w7 = spec_opt_words(spec_slot_field(*d, ExceptionSlot::FullMappings), dbl);
    let double = needs_double(d);
    let h = header_value(d);
    let mut out: Vec<u8> = Vec::new();
    out.push((h % 256) as u8);
    out.push((h / 256) as u8);
    let ghost hdr = out@;
    proof {
        assert(hdr =~= seq![
            (spec_header_bits(*d) % 256) as u8,
            (spec_header_bits(*d) / 256) as u8,
        ]);
    }
    let lower = opt_char_value(&d.lower);
    let fold = opt_char_value(&d.fold);
    let upper = opt_char_value(&d.upper);
    let title = opt_char_value(&d.title);
    let delta_v = match &d.delta {
        Some(sd) => Some(sd.magnitude),
        None => None,
    };
    push_opt(&mut out, &lower, double);
    push_opt(&mut out, &fold, double);
    push_opt(&mut out, &upper, double);
    push_opt(&mut out, &title, double);
    push_opt(&mut out, &delta_v, double);
    push_opt(&mut out, &d.closure_index, double);
    push_opt(&mut out, &d.full_mappings_index, double);
    proof {
        let y0 = words_to_bytes(w0);
        let y1 = words_to_bytes(w1);
        let y2 = words_to_bytes(w2);
        let y3 = words_to_bytes(w3);
        let y4 = words_to_bytes(w4);
        let y6 = words_to_bytes(w6);
        let y7 = words_to_bytes(w7);
        lemma_words_to_bytes_concat(w0, w1);
        lemma_words_to_bytes_concat(w0 + w1, w2);
        lemma_words_to_bytes_concat(w0 + w1 + w2, w3);
        lemma_words_to_bytes_concat(w0 + w1 + w2 + w3, w4);
        lemma_words_to_bytes_concat(w0 + w1 + w2 + w3 + w4, w6);
        lemma_words_to_bytes_concat(w0 + w1 + w2 + w3 + w4 + w6, w7);
        vstd::seq_lib::lemma_concat_associative(hdr, y0, y1);
        vstd::seq_lib::lemma_concat_associative(hdr, y0 + y1, y2);
        vstd::seq_lib::lemma_concat_associative(hdr, y0 + y1 + y2, y3);
        vstd::seq_lib::lemma_concat_associative(hdr, y0 + y1 + y2 + y3, y4);
        vstd::seq_lib::lemma_concat_associative(hdr, y0 + y1 + y2 + y3 + y4, y6);
        vstd::seq_lib::lemma_concat_associative(hdr, y0 + y1 + y2 + y3 + y4 + y6, y7);
        assert(out@ == hdr + words_to_bytes(spec_payload_words(*d)));
        assert(out@ == spec_build(*d));
        lemma_round_trip(*d);
    }
    out
}

/// Validates a byte span and recovers the description it encodes, reporting
/// the exact layout error of an ill-formed span and a corruption error when a
/// codepoint slot holds no Unicode scalar.
pub fn decode(bytes: &[u8]) -> (r: Result<ExceptionDescription, DecodeError>)
    ensures
        r == spec_decode(bytes@),
{
    let e = match Exception::from_bytes(bytes) {
        Ok(e) => e,
        Err(err) => {
            return Err(DecodeError::Layout(err));
        },
    };
    let lower = match e.try_slot_char(MappingKind::Lower) {
        Ok(c) => c,
        Err(_) => {
            return Err(DecodeError::InvalidCodePoint);
        },
    };
    let fold = match e.try_slot_char(MappingKind::Fold) {
        Ok(c) => c,
        Err(_) => {
            return Err(DecodeError::InvalidCodePoint);
        },
    };
    let upper = match e.try_slot_char(MappingKind::Upper) {
        Ok(c) => c,
        Err(_) => {
            return Err(DecodeError::InvalidCodePoint);
        },
    };
    let title = match e.try_slot_char(MappingKind::Title) {
        Ok(c) => c,
        Err(_) => {
            return Err(DecodeError::InvalidCodePoint);
        },
    };
    let delta = match e.slot_value(ExceptionSlot::Delta) {
        Some(magnitude) => Some(
            SignedDelta { magnitude, is_negative: e.header.delta_is_negative() },
        ),
        None => None,
    };
    let closure_index = e.slot_value(ExceptionSlot::Closure);
    let full_mappings_index = e.slot_value(ExceptionSlot::FullMappings);
    Ok(
        ExceptionDescription {
            lower,
            fold,
            upper,
            title,
            delta,
            closure_index,
            full_mappings_index,
            no_simple_case_folding: e.no_simple_case_folding(),
            is_sensitive: e.is_sensitive(),
            has_conditional_special: e.has_conditional_special(),
            has_conditional_fold: e.has_conditional_fold(),
            dot_type: e.dot_type(),
        },
    )
}

/// A record view over bytes that decode to `desc` answers every query from
/// `desc`: the characters, the delta magnitude and sign, the indices, the
/// flags and the dot type.
pub proof fn lemma_view_matches(e: Exception, bytes: Seq<u8>, desc: ExceptionDescription)
    requires
        spec_decode_record(bytes) == Some(desc),
        e.header == spec_header_of(bytes),
        e.slots@ == bytes.skip(2),
    ensures
        e.wf(),
        e.spec_slot_char(MappingKind::Lower) == Ok::<Option<char>, crate::record::CorruptionError>(
            desc.lower,
        ),
        e.spec_slot_char(MappingKind::Fold) == Ok::<Option<char>, crate::record::CorruptionError>(
            desc.fold,
        ),
        e.spec_slot_char(MappingKind::Upper) == Ok::<Option<char>, crate::record::CorruptionError>(
            desc.upper,
        ),
        e.spec_slot_char(MappingKind::Title) == Ok::<Option<char>, crate::record::CorruptionError>(
            desc.title,
        ),
        e.header.spec_has_slot(ExceptionSlot::Delta) <==> desc.delta is Some,
        desc.delta matches Some(sd) ==> e.spec_slot_value(ExceptionSlot::Delta) == sd.magnitude
            && e.header.spec_delta_is_negative() == sd.is_negative,
        e.header.spec_has_slot(ExceptionSlot::Closure) <==> desc.closure_index is Some,
        desc.closure_index matches Some(ci) ==> e.spec_slot_value(ExceptionSlot::Closure) == ci,
        e.header.spec_has_slot(ExceptionSlot::FullMappings) <==> desc.full_mappings_index is Some,
        desc.full_mappings_index matches Some(fi) ==> e.spec_slot_value(
            ExceptionSlot::FullMappings,
        ) == fi,
        e.header.spec_no_simple_case_folding() == desc.no_simple_case_folding,
        e.header.spec_is_sensitive() == desc.is_sensitive,
        e.header.spec_has_conditional_special() == desc.has_conditional_special,
        e.header.spec_has_conditional_fold() == desc.has_conditional_fold,
        DotType::spec_from_bits(e.header.spec_dot_bits()) == desc.dot_type,
{
    assert(layout_valid(bytes));
    assert(desc == spec_described(spec_header_of(bytes), bytes.skip(2)));
}

} // verus!
