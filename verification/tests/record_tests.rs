use case_exceptions::record::CorruptionError;
use case_exceptions::record::Exception;
use case_exceptions::slots::DotType;
use case_exceptions::slots::ExceptionSlot;
use case_exceptions::slots::MappingKind;

#[test]
fn lower_only_record_resolves_lower_and_falls_back() {
    // Only the Lower slot present, single-width, storing U+0061 'a'.
    let bytes = [0x01, 0x00, 0x61, 0x00];
    let e = Exception::from_bytes(&bytes[..]).unwrap();
    assert_eq!(e.slot_char(MappingKind::Lower), Some('a'));
    assert_eq!(e.slot_char(MappingKind::Upper), None);
    assert_eq!(e.slot_char(MappingKind::Fold), None);
    // Fold is absent, so the fallback reads Lower.
    assert_eq!(e.slot_char_with_fallback(MappingKind::Fold), Some('a'));
    // Title is absent and so is Upper: no character.
    assert_eq!(e.slot_char_with_fallback(MappingKind::Title), None);
    // Lower never falls back.
    assert_eq!(e.slot_char_with_fallback(MappingKind::Lower), Some('a'));
}

#[test]
fn fallback_prefers_the_requested_slot() {
    // Lower 'a' and Fold 'b' both present: Fold resolves to its own slot.
    let bytes = [0x03, 0x00, 0x61, 0x00, 0x62, 0x00];
    let e = Exception::from_bytes(&bytes[..]).unwrap();
    assert_eq!(e.slot_char_with_fallback(MappingKind::Fold), Some('b'));
    // Title absent, Upper absent: None even though Lower and Fold exist.
    assert_eq!(e.slot_char_with_fallback(MappingKind::Title), None);
}

#[test]
fn title_falls_back_to_upper() {
    // Upper 'B' present, Title absent.
    let bytes = [0x04, 0x00, 0x42, 0x00];
    let e = Exception::from_bytes(&bytes[..]).unwrap();
    assert_eq!(e.slot_char_with_fallback(MappingKind::Title), Some('B'));
    assert_eq!(e.slot_char(MappingKind::Title), None);
}

#[test]
fn negative_delta_of_magnitude_one() {
    // Delta slot present with magnitude 1, delta-is-negative set.
    let bytes = [0x10, 0x04, 0x01, 0x00];
    let e = Exception::from_bytes(&bytes[..]).unwrap();
    assert_eq!(e.delta(), Some(-1));
}

#[test]
fn positive_delta_keeps_its_magnitude() {
    let bytes = [0x10, 0x00, 0x2A, 0x00];
    let e = Exception::from_bytes(&bytes[..]).unwrap();
    assert_eq!(e.delta(), Some(42));
}

#[test]
fn delta_is_none_without_the_slot() {
    let bytes = [0x01, 0x04, 0x61, 0x00];
    let e = Exception::from_bytes(&bytes[..]).unwrap();
    assert_eq!(e.delta(), None);
}

#[test]
fn double_width_upper_slot_forms_a_supplementary_codepoint() {
    // Double-width header with a single Upper slot storing the words
    // (0x0001, 0x0400): high word first, so the codepoint is U+10400.
    let bytes = [0x04, 0x01, 0x01, 0x00, 0x00, 0x04];
    let e = Exception::from_bytes(&bytes[..]).unwrap();
    assert_eq!(e.slot_char(MappingKind::Upper), Some(char::from_u32(0x0001_0400).unwrap()));
}

#[test]
fn surrogate_word_is_reported_as_corruption() {
    // The Lower slot stores 0xD800, which is no Unicode scalar.
    let bytes = [0x01, 0x00, 0x00, 0xD8];
    let e = Exception::from_bytes(&bytes[..]).unwrap();
    assert_eq!(e.try_slot_char(MappingKind::Lower), Err(CorruptionError::InvalidCodePoint));
    // A valid slot beside it still resolves.
    assert_eq!(e.try_slot_char(MappingKind::Fold), Ok(None));
}

#[test]
fn flags_are_read_from_the_header() {
    let bytes = [0x00, 0x8A];
    let e = Exception::from_bytes(&bytes[..]).unwrap();
    assert!(e.no_simple_case_folding());
    assert!(e.is_sensitive());
    assert!(e.has_conditional_fold());
    assert!(!e.has_conditional_special());
}

#[test]
fn dot_type_is_exposed() {
    let bytes = [0x00, 0x10];
    let e = Exception::from_bytes(&bytes[..]).unwrap();
    assert_eq!(e.dot_type(), DotType::SoftDotted);
}

#[test]
fn full_mapping_idx_adds_the_kind_ordinal() {
    // FullMappings slot present with base index 10.
    let bytes = [0x80, 0x00, 0x0A, 0x00];
    let e = Exception::from_bytes(&bytes[..]).unwrap();
    assert_eq!(e.full_mapping_idx(MappingKind::Lower), Some(10));
    assert_eq!(e.full_mapping_idx(MappingKind::Fold), Some(11));
    assert_eq!(e.full_mapping_idx(MappingKind::Upper), Some(12));
    assert_eq!(e.full_mapping_idx(MappingKind::Title), Some(13));
    assert_eq!(e.closure_string_idx(), None);
}

#[test]
fn closure_string_idx_reads_the_closure_slot() {
    let bytes = [0x40, 0x00, 0x07, 0x00];
    let e = Exception::from_bytes(&bytes[..]).unwrap();
    assert_eq!(e.closure_string_idx(), Some(7));
    assert_eq!(e.full_mapping_idx(MappingKind::Lower), None);
}

#[test]
fn slot_value_uses_position_not_bit_index() {
    // Fold and Delta present: Fold at position 0, Delta at position 1.
    let bytes = [0x12, 0x00, 0x62, 0x00, 0x05, 0x00];
    let e = Exception::from_bytes(&bytes[..]).unwrap();
    assert_eq!(e.slot_value(ExceptionSlot::Fold), Some(0x62));
    assert_eq!(e.slot_value(ExceptionSlot::Delta), Some(5));
    assert_eq!(e.slot_value(ExceptionSlot::Lower), None);
}

#[test]
fn from_bytes_rejects_what_validate_rejects() {
    assert!(Exception::from_bytes(&[0x01]).is_err());
    assert!(Exception::from_bytes(&[0x07, 0x00, 0x61, 0x00, 0x62, 0x00]).is_err());
}
