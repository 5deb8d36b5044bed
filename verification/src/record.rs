//! The zero-copy record view.
//!
//! An [`Exception`] borrows the payload bytes of one record and answers every
//! query in constant time, reading only bytes that layout validation has
//! already accounted for. It is constructed through [`Exception::from_bytes`]
//! (which validates) or handed out by the table, never from unvalidated
//! input.

use vstd::prelude::*;
use vstd::utf8::is_scalar;

use crate::header::ExceptionHeader;
use crate::header::lemma_position_lt_num_slots;
use crate::header::word_from_bytes;
use crate::slots::DotType;
use crate::slots::ExceptionSlot;
use crate::slots::MappingKind;
use crate::slots::spec_slot_for;
use crate::validate::LayoutError;
use crate::validate::layout_valid;
use crate::validate::spec_header_of;
use crate::validate::validate;

verus! {

/// Semantically impossible content inside a layout-valid record: the bytes
/// passed validation but a codepoint slot does not hold a Unicode scalar
/// value. This signals upstream data corruption, never a normal input.
#[derive(Clone, Copy, Debug, PartialEq, Eq, Structural)]
pub enum CorruptionError {
    InvalidCodePoint,
}

/// Relies on char::from_u32: `Some` exactly when the value is a Unicode
/// scalar (not a surrogate, at most 0x10FFFF), returning the scalar itself.
pub assume_specification[ char::from_u32 ](v: u32) -> (r: Option<char>)
    ensures
        r is Some <==> is_scalar(v),
        r matches Some(c) ==> c as u32 == v,
;

/// The 16-bit word stored little-endian at word index `j` of a payload.
pub open spec fn spec_word_at(payload: Seq<u8>, j: int) -> u16
    recommends
        0 <= j,
        2 * j + 1 < payload.len(),
{
    word_from_bytes(payload[2 * j], payload[2 * j + 1])
}

/// The raw value of a present slot: one word, or two words combined as
/// `(hi << 16) | lo` with the high word first, per the record's width.
pub open spec fn spec_raw_slot_value(h: ExceptionHeader, payload: Seq<u8>, slot: ExceptionSlot) -> u32
    recommends
        h.spec_has_slot(slot),
        payload.len() == h.spec_num_slots() * h.spec_width_words() * 2,
{
    let p = h.spec_slot_position(slot) as int;
    if h.spec_double() {
        (spec_word_at(payload, 2 * p) * 0x10000 + spec_word_at(payload, 2 * p + 1)) as u32
    } else {
        spec_word_at(payload, p) as u32
    }
}

/// A typed view over the bytes of one validated record.
#[derive(Clone, Copy, Debug)]
pub struct Exception<'a> {
    /// The decoded header.
    pub header: ExceptionHeader,
    /// The payload bytes (everything after the 2-byte header).
    pub slots: &'a [u8],
}

impl<'a> Exception<'a> {
    /// The payload has exactly the length the header declares.
    pub open spec fn wf(self) -> bool {
        self.slots@.len() == self.header.spec_num_slots() * self.header.spec_width_words() * 2
    }

    /// The raw value of `slot`, when present.
    pub open spec fn spec_slot_value(self, slot: ExceptionSlot) -> u32 {
        spec_raw_slot_value(self.header, self.slots@, slot)
    }

    /// Whether the slot for `kind`, if present, stores a Unicode scalar.
    pub open spec fn spec_char_slot_valid(self, kind: MappingKind) -> bool {
        self.header.spec_has_slot(spec_slot_for(kind)) ==> is_scalar(
            self.spec_slot_value(spec_slot_for(kind)),
        )
    }

    /// What resolving the single-character mapping of `kind` yields:
    /// `Ok(None)` when the slot is absent, the stored scalar when valid, and
    /// a corruption error when the stored value is no scalar.
    pub open spec fn spec_slot_char(self, kind: MappingKind) -> Result<
        Option<char>,
        CorruptionError,
    > {
        let slot = spec_slot_for(kind);
        if !self.header.spec_has_slot(slot) {
            Ok(None)
        } else if is_scalar(self.spec_slot_value(slot)) {
            Ok(Some(self.spec_slot_value(slot) as char))
        } else {
            Err(CorruptionError::InvalidCodePoint)
        }
    }

    /// The fallback resolution: `Fold` falls back to `Lower`, `Title` to
    /// `Upper`; `Lower` and `Upper` have no fallback (absence means "maps to
    /// self", decided by the caller).
    pub open spec fn spec_slot_char_with_fallback(self, kind: MappingKind) -> Result<
        Option<char>,
        CorruptionError,
    > {
        match kind {
            MappingKind::Fold => if self.header.spec_has_slot(ExceptionSlot::Fold) {
                self.spec_slot_char(MappingKind::Fold)
            } else {
                self.spec_slot_char(MappingKind::Lower)
            },
            MappingKind::Title => if self.header.spec_has_slot(ExceptionSlot::Title) {
                self.spec_slot_char(MappingKind::Title)
            } else {
                self.spec_slot_char(MappingKind::Upper)
            },
            _ => self.spec_slot_char(kind),
        }
    }

    /// Wraps a span that is already known to be layout-valid — the trusted
    /// construction path for spans the builder produced or the table already
    /// validated.
    pub fn from_validated(bytes: &'a [u8]) -> (r: Exception<'a>)
        requires
            layout_valid(bytes@),
        ensures
            r.wf(),
            r.header == spec_header_of(bytes@),
            r.slots@ == bytes@.skip(2),
    {
        let header = ExceptionHeader::decode(bytes[0], bytes[1]);
        let slots = vstd::slice::slice_subrange(bytes, 2, bytes.len());
        proof {
            assert(bytes@.subrange(2, bytes@.len() as int) =~= bytes@.skip(2));
        }
        Exception { header, slots }
    }

    /// Validates `bytes` and wraps it as a record view; the only way to turn
    /// an untrusted span into a view.
    pub fn from_bytes(bytes: &'a [u8]) -> (r: Result<Exception<'a>, LayoutError>)
        ensures
            r is Ok <==> layout_valid(bytes@),
            r matches Ok(e) ==> {
                &&& e.wf()
                &&& e.header == spec_header_of(bytes@)
                &&& e.slots@ == bytes@.skip(2)
            },
            r matches Err(err) ==> Err::<(), LayoutError>(err) == validate_err(bytes@),
    {
        match validate(bytes) {
            Ok(()) => Ok(Exception::from_validated(bytes)),
            Err(e) => Err(e),
        }
    }

    /// Reads the 16-bit word at word index `j` of the payload.
    fn read_word(&self, j: usize) -> (r: u16)
        requires
            j <= 15,
            2 * j + 1 < self.slots@.len(),
        ensures
            r == spec_word_at(self.slots@, j as int),
    {
        let b0 = self.slots[2 * j];
        let b1 = self.slots[2 * j + 1];
        b0 as u16 + 256 * (b1 as u16)
    }

    /// The raw value of `slot`: `None` when absent, otherwise the stored
    /// word, or the two words combined high-first in a double-width record.
    pub fn slot_value(&self, slot: ExceptionSlot) -> (r: Option<u32>)
        requires
            self.wf(),
        ensures
            r is Some <==> self.header.spec_has_slot(slot),
            r matches Some(v) ==> v == self.spec_slot_value(slot),
    {
        if self.header.has_slot(slot) {
            let pos = self.header.slot_position(slot);
            proof {
                lemma_position_lt_num_slots(self.header, slot);
            }
            if self.header.has_double_slots() {
                let hi = self.read_word(2 * pos);
                let lo = self.read_word(2 * pos + 1);
                Some((hi as u32) * 0x10000 + lo as u32)
            } else {
                Some(self.read_word(pos) as u32)
            }
        } else {
            None
        }
    }

    /// The single-character mapping of `kind`, when its slot is present.
    ///
    /// Callers must know the slot holds a valid scalar (true of every record
    /// the builder produced); [`Exception::try_slot_char`] is the checked
    /// entry point for records whose content is not trusted.
    pub fn slot_char(&self, kind: MappingKind) -> (r: Option<char>)
        requires
            self.wf(),
            self.spec_char_slot_valid(kind),
        ensures
            Ok::<Option<char>, CorruptionError>(r) == self.spec_slot_char(kind),
    {
        let slot = ExceptionSlot::from(kind);
        let r = match self.slot_value(slot) {
            Some(raw) => char::from_u32(raw),
            None => None,
        };
        proof {
            if self.header.spec_has_slot(spec_slot_for(kind)) {
                let v = self.spec_slot_value(spec_slot_for(kind));
                if r is Some {
                    vstd::utf8::char_u32_cast(r->0, v);
                }
            }
        }
        r
    }

    /// The checked form of [`Exception::slot_char`]: reports corruption
    /// instead of assuming the stored value is a scalar.
    pub fn try_slot_char(&self, kind: MappingKind) -> (r: Result<Option<char>, CorruptionError>)
        requires
            self.wf(),
        ensures
            r == self.spec_slot_char(kind),
    {
        let slot = ExceptionSlot::from(kind);
        match self.slot_value(slot) {
            Some(raw) => match char::from_u32(raw) {
                Some(c) => {
                    proof {
                        vstd::utf8::char_u32_cast(c, self.spec_slot_value(spec_slot_for(kind)));
                    }
                    Ok(Some(c))
                },
                None => Err(CorruptionError::InvalidCodePoint),
            },
            None => Ok(None),
        }
    }

    /// The single-character mapping of `kind` with the two fallback rules
    /// applied: a missing `Fold` falls back to `Lower`, a missing `Title` to
    /// `Upper`; `Lower` and `Upper` never fall back.
    pub fn slot_char_with_fallback(&self, kind: MappingKind) -> (r: Option<char>)
        requires
            self.wf(),
            self.spec_char_slot_valid(kind),
            kind is Fold ==> self.spec_char_slot_valid(MappingKind::Lower),
            kind is Title ==> self.spec_char_slot_valid(MappingKind::Upper),
        ensures
            Ok::<Option<char>, CorruptionError>(r) == self.spec_slot_char_with_fallback(kind),
    {
        match kind {
            MappingKind::Fold => match self.slot_char(MappingKind::Fold) {
                Some(c) => Some(c),
                None => self.slot_char(MappingKind::Lower),
            },
            MappingKind::Title => match self.slot_char(MappingKind::Title) {
                Some(c) => Some(c),
                None => self.slot_char(MappingKind::Upper),
            },
            _ => self.slot_char(kind),
        }
    }

    /// The signed delta: `None` exactly when the Delta slot is absent;
    /// otherwise the stored magnitude, negated when the delta-is-negative
    /// flag is set.
    pub fn delta(&self) -> (r: Option<i32>)
        requires
            self.wf(),
            self.header.spec_has_slot(ExceptionSlot::Delta) ==> self.spec_slot_value(
                ExceptionSlot::Delta,
            ) <= 0x7fff_ffff,
        ensures
            r is Some <==> self.header.spec_has_slot(ExceptionSlot::Delta),
            r matches Some(d) ==> d == if self.header.spec_delta_is_negative() {
                -(self.spec_slot_value(ExceptionSlot::Delta) as int)
            } else {
                self.spec_slot_value(ExceptionSlot::Delta) as int
            },
    {
        match self.slot_value(ExceptionSlot::Delta) {
            Some(raw) => {
                let magnitude = raw as i32;
                if self.header.delta_is_negative() {
                    Some(-magnitude)
                } else {
                    Some(magnitude)
                }
            },
            None => None,
        }
    }

    /// Whether this codepoint has no valid simple (single-character) fold.
    pub fn no_simple_case_folding(&self) -> (r: bool)
        ensures
            r == self.header.spec_no_simple_case_folding(),
    {
        self.header.no_simple_case_folding()
    }

    /// Whether this codepoint is case-sensitive under simple comparison.
    pub fn is_sensitive(&self) -> (r: bool)
        ensures
            r == self.header.spec_is_sensitive(),
    {
        self.header.is_sensitive()
    }

    /// Whether a language-specific conditional case fold exists (Turkic
    /// dotted/dotless i).
    pub fn has_conditional_fold(&self) -> (r: bool)
        ensures
            r == self.header.spec_has_conditional_fold(),
    {
        self.header.has_conditional_fold()
    }

    /// Whether a language- or context-specific special mapping exists beyond
    /// this record.
    pub fn has_conditional_special(&self) -> (r: bool)
        ensures
            r == self.header.spec_has_conditional_special(),
    {
        self.header.has_conditional_special()
    }

    /// The combining-dot classification stored in the header.
    pub fn dot_type(&self) -> (r: DotType)
        ensures
            r == DotType::spec_from_bits(self.header.spec_dot_bits()),
            r.spec_bits() == self.header.spec_dot_bits(),
    {
        self.header.dot_type()
    }

    /// The index of the full (multi-character) mapping of `kind` in the
    /// external string table: the stored base plus the kind's ordinal.
    pub fn full_mapping_idx(&self, slot: MappingKind) -> (r: Option<usize>)
        requires
            self.wf(),
            self.header.spec_has_slot(ExceptionSlot::FullMappings) ==> self.spec_slot_value(
                ExceptionSlot::FullMappings,
            ) + 3 <= usize::MAX,
        ensures
            r is Some <==> self.header.spec_has_slot(ExceptionSlot::FullMappings),
            r matches Some(i) ==> i == self.spec_slot_value(ExceptionSlot::FullMappings)
                + slot.spec_ordinal(),
    {
        match self.slot_value(ExceptionSlot::FullMappings) {
            Some(base) => Some(base as usize + slot.ordinal() as usize),
            None => None,
        }
    }

    /// The index of this codepoint's case-folding closure string in the
    /// string table.
    pub fn closure_string_idx(&self) -> (r: Option<usize>)
        requires
            self.wf(),
        ensures
            r is Some <==> self.header.spec_has_slot(ExceptionSlot::Closure),
            r matches Some(i) ==> i == self.spec_slot_value(ExceptionSlot::Closure),
    {
        match self.slot_value(ExceptionSlot::Closure) {
            Some(v) => Some(v as usize),
            None => None,
        }
    }
}

/// Fallback law: the fallback resolution of `Fold` reads the Fold slot when
/// present, else the Lower slot when present, else resolves to no character;
/// `Title` falls back to `Upper` the same way; `Lower` and `Upper` never fall
/// back.
pub proof fn lemma_fallback_law(e: Exception)
    ensures
        e.spec_slot_char_with_fallback(MappingKind::Fold) == (if e.header.spec_has_slot(
            ExceptionSlot::Fold,
        ) {
            e.spec_slot_char(MappingKind::Fold)
        } else if e.header.spec_has_slot(ExceptionSlot::Lower) {
            e.spec_slot_char(MappingKind::Lower)
        } else {
            Ok::<Option<char>, CorruptionError>(None)
        }),
        e.spec_slot_char_with_fallback(MappingKind::Title) == (if e.header.spec_has_slot(
            ExceptionSlot::Title,
        ) {
            e.spec_slot_char(MappingKind::Title)
        } else if e.header.spec_has_slot(ExceptionSlot::Upper) {
            e.spec_slot_char(MappingKind::Upper)
        } else {
            Ok::<Option<char>, CorruptionError>(None)
        }),
        e.spec_slot_char_with_fallback(MappingKind::Lower) == e.spec_slot_char(MappingKind::Lower),
        e.spec_slot_char_with_fallback(MappingKind::Upper) == e.spec_slot_char(MappingKind::Upper),
{
}

/// The error that [`validate`] reports for an ill-formed span.
pub open spec fn validate_err(bytes: Seq<u8>) -> Result<(), LayoutError> {
    if bytes.len() < 2 {
        Err(LayoutError::Truncated)
    } else if !layout_valid(bytes) {
        Err(LayoutError::SizeMismatch)
    } else {
        Ok(())
    }
}

} // verus!
