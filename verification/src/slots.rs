//! Slot kinds, mapping kinds, and dot types.
//!
//! An exception record stores up to seven optional *slots*. Each slot kind
//! owns one presence bit in the header; the bit index also fixes the order in
//! which present slots are laid out in the payload (bit 5 is reserved and is
//! never set by the builder).

use vstd::prelude::*;

verus! {

/// The four case-mapping kinds a caller can request from a record.
#[derive(Clone, Copy, Debug, PartialEq, Eq, Structural)]
pub enum MappingKind {
    Lower,
    Fold,
    Upper,
    Title,
}

impl MappingKind {
    /// Ordinal used to address the four full mappings in the string table:
    /// Lower, Fold, Upper, Title in that order.
    pub open spec fn spec_ordinal(self) -> u32 {
        match self {
            MappingKind::Lower => 0,
            MappingKind::Fold => 1,
            MappingKind::Upper => 2,
            MappingKind::Title => 3,
        }
    }

    pub fn ordinal(self) -> (r: u32)
        ensures
            r == self.spec_ordinal(),
            r <= 3,
    {
        match self {
            MappingKind::Lower => 0,
            MappingKind::Fold => 1,
            MappingKind::Upper => 2,
            MappingKind::Title => 3,
        }
    }
}

/// One optional named field of an exception record.
///
/// The variants are listed in ascending presence-bit order; slot 5 is
/// reserved, so `Closure` and `FullMappings` sit at bits 6 and 7.
#[derive(Clone, Copy, Debug, PartialEq, Eq, Structural)]
pub enum ExceptionSlot {
    Lower,
    Fold,
    Upper,
    Title,
    Delta,
    Closure,
    FullMappings,
}

impl ExceptionSlot {
    /// Index of this slot's presence bit in the packed header.
    pub open spec fn spec_bit_index(self) -> u16 {
        match self {
            ExceptionSlot::Lower => 0,
            ExceptionSlot::Fold => 1,
            ExceptionSlot::Upper => 2,
            ExceptionSlot::Title => 3,
            ExceptionSlot::Delta => 4,
            ExceptionSlot::Closure => 6,
            ExceptionSlot::FullMappings => 7,
        }
    }

    pub fn bit_index(self) -> (r: u16)
        ensures
            r == self.spec_bit_index(),
            r <= 7,
    {
        match self {
            ExceptionSlot::Lower => 0,
            ExceptionSlot::Fold => 1,
            ExceptionSlot::Upper => 2,
            ExceptionSlot::Title => 3,
            ExceptionSlot::Delta => 4,
            ExceptionSlot::Closure => 6,
            ExceptionSlot::FullMappings => 7,
        }
    }

    /// Whether this slot stores a codepoint (as opposed to a delta or an
    /// index into the string table).
    pub fn contains_char(&self) -> (r: bool)
        ensures
            r == (self is Lower || self is Fold || self is Upper || self is Title),
    {
        matches!(self, ExceptionSlot::Lower | ExceptionSlot::Fold | ExceptionSlot::Upper
            | ExceptionSlot::Title)
    }
}

/// The slot that stores the single-character mapping of a given kind.
pub open spec fn spec_slot_for(kind: MappingKind) -> ExceptionSlot {
    match kind {
        MappingKind::Lower => ExceptionSlot::Lower,
        MappingKind::Fold => ExceptionSlot::Fold,
        MappingKind::Upper => ExceptionSlot::Upper,
        MappingKind::Title => ExceptionSlot::Title,
    }
}

impl From<MappingKind> for ExceptionSlot {
    fn from(full: MappingKind) -> (r: Self) {
        match full {
            MappingKind::Lower => ExceptionSlot::Lower,
            MappingKind::Fold => ExceptionSlot::Fold,
            MappingKind::Upper => ExceptionSlot::Upper,
            MappingKind::Title => ExceptionSlot::Title,
        }
    }
}

impl vstd::std_specs::convert::FromSpecImpl<MappingKind> for ExceptionSlot {
    open spec fn obeys_from_spec() -> bool {
        true
    }

    open spec fn from_spec(full: MappingKind) -> Self {
        spec_slot_for(full)
    }
}

/// Classification of combining-dot behaviour, used for Turkic dotted and
/// dotless i casing. Stored in two header bits.
#[derive(Clone, Copy, Debug, PartialEq, Eq, Structural)]
pub enum DotType {
    NoDot,
    SoftDotted,
    Above,
    OtherAccent,
}

impl DotType {
    /// The two-bit wire encoding of this dot type.
    pub open spec fn spec_bits(self) -> u16 {
        match self {
            DotType::NoDot => 0,
            DotType::SoftDotted => 1,
            DotType::Above => 2,
            DotType::OtherAccent => 3,
        }
    }

    pub fn bits(self) -> (r: u16)
        ensures
            r == self.spec_bits(),
            r <= 3,
    {
        match self {
            DotType::NoDot => 0,
            DotType::SoftDotted => 1,
            DotType::Above => 2,
            DotType::OtherAccent => 3,
        }
    }

    /// The dot type encoded by a two-bit value.
    pub open spec fn spec_from_bits(bits: u16) -> DotType {
        if bits == 0 {
            DotType::NoDot
        } else if bits == 1 {
            DotType::SoftDotted
        } else if bits == 2 {
            DotType::Above
        } else {
            DotType::OtherAccent
        }
    }

    pub fn from_bits(bits: u16) -> (r: DotType)
        requires
            bits <= 3,
        ensures
            r == DotType::spec_from_bits(bits),
            r.spec_bits() == bits,
    {
        if bits == 0 {
            DotType::NoDot
        } else if bits == 1 {
            DotType::SoftDotted
        } else if bits == 2 {
            DotType::Above
        } else {
            DotType::OtherAccent
        }
    }
}

} // verus!
