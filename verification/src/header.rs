//! The packed 16-bit exception header.
//!
//! Bit layout:
//!
//! | bits  | meaning                                              |
//! |-------|------------------------------------------------------|
//! | 0..=7 | slot presence bitmap (bit 5 reserved, always 0)      |
//! | 8     | double-width slots (two 16-bit words per slot)       |
//! | 9     | no simple case folding                               |
//! | 10    | delta is negative                                    |
//! | 11    | case-sensitive                                       |
//! | 12,13 | dot type                                             |
//! | 14    | conditional special mapping exists                   |
//! | 15    | conditional case fold exists                         |
//!
//! A slot's *position* in the payload is the number of presence bits set at
//! lower bit indices, not the bit index itself.

use vstd::prelude::*;

use crate::slots::DotType;
use crate::slots::ExceptionSlot;

verus! {

/// Whether bit `i` of `h` is set.
pub open spec fn bit_set(h: u16, i: u16) -> bool
    recommends
        i < 16,
{
    h & (1u16 << i) != 0
}

/// The number of bits set in `h` at indices below `n`.
pub open spec fn count_present_below(h: u16, n: u16) -> nat
    decreases n,
{
    if n == 0 {
        0
    } else {
        count_present_below(h, (n - 1) as u16) + if bit_set(h, (n - 1) as u16) {
            1nat
        } else {
            0nat
        }
    }
}

pub proof fn lemma_count_below_monotonic(h: u16, m: u16, n: u16)
    requires
        m <= n,
    ensures
        count_present_below(h, m) <= count_present_below(h, n),
    decreases n,
{
    if m < n {
        lemma_count_below_monotonic(h, m, (n - 1) as u16);
    }
}

/// The 16-bit value encoded little-endian by two bytes.
pub open spec fn word_from_bytes(b0: u8, b1: u8) -> u16 {
    (b0 + 256 * b1) as u16
}

/// The packed header of one exception record.
#[derive(Clone, Copy, Debug, PartialEq, Eq, Structural)]
pub struct ExceptionHeader(pub u16);

impl ExceptionHeader {
    /// Whether the given slot is present in the record.
    pub open spec fn spec_has_slot(self, slot: ExceptionSlot) -> bool {
        bit_set(self.0, slot.spec_bit_index())
    }

    /// The number of present slots (popcount of bits 0..=7).
    pub open spec fn spec_num_slots(self) -> nat {
        count_present_below(self.0, 8)
    }

    /// The position of a slot in the payload: the number of presence bits set
    /// below its own bit index. Meaningful when the slot is present.
    pub open spec fn spec_slot_position(self, slot: ExceptionSlot) -> nat {
        count_present_below(self.0, slot.spec_bit_index())
    }

    /// Whether every present slot occupies two 16-bit words.
    pub open spec fn spec_double(self) -> bool {
        bit_set(self.0, 8)
    }

    /// 16-bit words per present slot.
    pub open spec fn spec_width_words(self) -> nat {
        if self.spec_double() {
            2
        } else {
            1
        }
    }

    pub open spec fn spec_no_simple_case_folding(self) -> bool {
        bit_set(self.0, 9)
    }

    pub open spec fn spec_delta_is_negative(self) -> bool {
        bit_set(self.0, 10)
    }

    pub open spec fn spec_is_sensitive(self) -> bool {
        bit_set(self.0, 11)
    }

    /// The two dot-type bits.
    pub open spec fn spec_dot_bits(self) -> u16 {
        (self.0 >> 12) & 3
    }

    pub open spec fn spec_has_conditional_special(self) -> bool {
        bit_set(self.0, 14)
    }

    pub open spec fn spec_has_conditional_fold(self) -> bool {
        bit_set(self.0, 15)
    }

    /// Little-endian decode of the two header bytes. Any 16-bit pattern is
    /// structurally acceptable here; layout validation happens in
    /// [`crate::validate`].
    pub fn decode(b0: u8, b1: u8) -> (r: ExceptionHeader)
        ensures
            r.0 == word_from_bytes(b0, b1),
    {
        ExceptionHeader(b0 as u16 + 256 * (b1 as u16))
    }

    /// Little-endian encode, the inverse of [`ExceptionHeader::decode`].
    pub fn encode(&self) -> (r: (u8, u8))
        ensures
            r.0 == self.0 % 256,
            r.1 == self.0 / 256,
            word_from_bytes(r.0, r.1) == self.0,
    {
        ((self.0 % 256) as u8, (self.0 / 256) as u8)
    }

    pub fn has_slot(&self, slot: ExceptionSlot) -> (r: bool)
        ensures
            r == self.spec_has_slot(slot),
    {
        let bit = slot.bit_index();
        self.0 & (1u16 << bit) != 0
    }

    pub fn num_slots(&self) -> (r: u16)
        ensures
            r == self.spec_num_slots(),
            r <= 8,
    {
        let mut count: u16 = 0;
        let mut i: u16 = 0;
        while i < 8
            invariant
                i <= 8,
                count == count_present_below(self.0, i),
                count <= i,
            decreases 8 - i,
        {
            if self.0 & (1u16 << i) != 0 {
                count = count + 1;
            }
            i = i + 1;
        }
        count
    }

    /// The position of `slot` in the payload. Callers only use it when the
    /// slot is present; the count itself is defined for any header.
    pub fn slot_position(&self, slot: ExceptionSlot) -> (r: usize)
        ensures
            r == self.spec_slot_position(slot),
            r <= 7,
    {
        let bit = slot.bit_index();
        let mut count: u16 = 0;
        let mut i: u16 = 0;
        while i < bit
            invariant
                i <= bit,
                bit <= 7,
                count == count_present_below(self.0, i),
                count <= i,
            decreases bit - i,
        {
            if self.0 & (1u16 << i) != 0 {
                count = count + 1;
            }
            i = i + 1;
        }
        count as usize
    }

    pub fn has_double_slots(&self) -> (r: bool)
        ensures
            r == self.spec_double(),
    {
        self.0 & (1u16 << 8u16) != 0
    }

    pub fn no_simple_case_folding(&self) -> (r: bool)
        ensures
            r == self.spec_no_simple_case_folding(),
    {
        self.0 & (1u16 << 9u16) != 0
    }

    pub fn delta_is_negative(&self) -> (r: bool)
        ensures
            r == self.spec_delta_is_negative(),
    {
        self.0 & (1u16 << 10u16) != 0
    }

    pub fn is_sensitive(&self) -> (r: bool)
        ensures
            r == self.spec_is_sensitive(),
    {
        self.0 & (1u16 << 11u16) != 0
    }

    pub fn dot_type(&self) -> (r: DotType)
        ensures
            r == DotType::spec_from_bits(self.spec_dot_bits()),
            r.spec_bits() == self.spec_dot_bits(),
    {
        let masked = (self.0 >> 12u16) & 3;
        proof {
            let h = self.0;
            assert((h >> 12u16) & 3 <= 3) by (bit_vector);
        }
        DotType::from_bits(masked)
    }

    pub fn has_conditional_special(&self) -> (r: bool)
        ensures
            r == self.spec_has_conditional_special(),
    {
        self.0 & (1u16 << 14u16) != 0
    }

    pub fn has_conditional_fold(&self) -> (r: bool)
        ensures
            r == self.spec_has_conditional_fold(),
    {
        self.0 & (1u16 << 15u16) != 0
    }
}

/// A present slot's position is strictly below the slot count, so its words
/// lie inside the payload.
pub proof fn lemma_position_lt_num_slots(h: ExceptionHeader, slot: ExceptionSlot)
    requires
        h.spec_has_slot(slot),
    ensures
        h.spec_slot_position(slot) < h.spec_num_slots(),
{
    let bit = slot.spec_bit_index();
    assert(count_present_below(h.0, (bit + 1) as u16) == count_present_below(h.0, bit) + 1);
    lemma_count_below_monotonic(h.0, (bit + 1) as u16, 8);
}

/// Slot positions grow strictly with the presence-bit index: when two slots
/// are both present, the one with the lower bit index stands earlier in the
/// payload.
pub proof fn lemma_slot_position_monotonic(
    h: ExceptionHeader,
    k1: ExceptionSlot,
    k2: ExceptionSlot,
)
    requires
        h.spec_has_slot(k1),
        h.spec_has_slot(k2),
        k1.spec_bit_index() < k2.spec_bit_index(),
    ensures
        h.spec_slot_position(k1) < h.spec_slot_position(k2),
{
    let b1 = k1.spec_bit_index();
    let b2 = k2.spec_bit_index();
    assert(count_present_below(h.0, (b1 + 1) as u16) == count_present_below(h.0, b1) + 1);
    lemma_count_below_monotonic(h.0, (b1 + 1) as u16, b2);
}

} // verus!
