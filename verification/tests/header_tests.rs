use case_exceptions::header::ExceptionHeader;
use case_exceptions::slots::DotType;
use case_exceptions::slots::ExceptionSlot;

#[test]
fn decode_is_little_endian() {
    let h = ExceptionHeader::decode(0x34, 0x12);
    assert_eq!(h.0, 0x1234);
}

#[test]
fn encode_inverts_decode() {
    let h = ExceptionHeader(0xBEEF);
    let (b0, b1) = h.encode();
    assert_eq!((b0, b1), (0xEF, 0xBE));
    assert_eq!(ExceptionHeader::decode(b0, b1), h);
}

#[test]
fn num_slots_is_popcount_of_low_byte() {
    assert_eq!(ExceptionHeader(0x0000).num_slots(), 0);
    assert_eq!(ExceptionHeader(0x00FF).num_slots(), 8);
    assert_eq!(ExceptionHeader(0x0055).num_slots(), 4);
    // High bits do not count as slots.
    assert_eq!(ExceptionHeader(0xFF00).num_slots(), 0);
}

#[test]
fn has_slot_tests_presence_bits() {
    let h = ExceptionHeader(0b0001_0110);
    assert!(!h.has_slot(ExceptionSlot::Lower));
    assert!(h.has_slot(ExceptionSlot::Fold));
    assert!(h.has_slot(ExceptionSlot::Upper));
    assert!(!h.has_slot(ExceptionSlot::Title));
    assert!(h.has_slot(ExceptionSlot::Delta));
    assert!(!h.has_slot(ExceptionSlot::Closure));
    assert!(!h.has_slot(ExceptionSlot::FullMappings));
}

#[test]
fn slot_position_counts_lower_presence_bits() {
    // Fold, Upper and Delta present: positions 0, 1, 2.
    let h = ExceptionHeader(0b0001_0110);
    assert_eq!(h.slot_position(ExceptionSlot::Fold), 0);
    assert_eq!(h.slot_position(ExceptionSlot::Upper), 1);
    assert_eq!(h.slot_position(ExceptionSlot::Delta), 2);
}

#[test]
fn slot_position_grows_with_bit_index() {
    // All seven kinds present.
    let h = ExceptionHeader(0b1101_1111);
    let kinds = [
        ExceptionSlot::Lower,
        ExceptionSlot::Fold,
        ExceptionSlot::Upper,
        ExceptionSlot::Title,
        ExceptionSlot::Delta,
        ExceptionSlot::Closure,
        ExceptionSlot::FullMappings,
    ];
    let mut prev: Option<usize> = None;
    for kind in kinds {
        let pos = h.slot_position(kind);
        if let Some(p) = prev {
            assert!(p < pos);
        }
        prev = Some(pos);
    }
    assert_eq!(prev, Some(6));
}

#[test]
fn flag_bits_are_read_individually() {
    assert!(ExceptionHeader(0x0100).has_double_slots());
    assert!(ExceptionHeader(0x0200).no_simple_case_folding());
    assert!(ExceptionHeader(0x0400).delta_is_negative());
    assert!(ExceptionHeader(0x0800).is_sensitive());
    assert!(ExceptionHeader(0x4000).has_conditional_special());
    assert!(ExceptionHeader(0x8000).has_conditional_fold());
    let none = ExceptionHeader(0x00FF);
    assert!(!none.has_double_slots());
    assert!(!none.no_simple_case_folding());
    assert!(!none.delta_is_negative());
    assert!(!none.is_sensitive());
    assert!(!none.has_conditional_special());
    assert!(!none.has_conditional_fold());
}

#[test]
fn dot_type_reads_bits_12_and_13() {
    assert_eq!(ExceptionHeader(0x0000).dot_type(), DotType::NoDot);
    assert_eq!(ExceptionHeader(0x1000).dot_type(), DotType::SoftDotted);
    assert_eq!(ExceptionHeader(0x2000).dot_type(), DotType::Above);
    assert_eq!(ExceptionHeader(0x3000).dot_type(), DotType::OtherAccent);
    // Neighbouring bits do not leak into the dot type.
    assert_eq!(ExceptionHeader(0xC800).dot_type(), DotType::NoDot);
}
