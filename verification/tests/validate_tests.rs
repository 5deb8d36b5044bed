use case_exceptions::validate::LayoutError;
use case_exceptions::validate::validate;

#[test]
fn empty_buffer_is_truncated() {
    assert_eq!(validate(&[]), Err(LayoutError::Truncated));
}

#[test]
fn one_byte_buffer_is_truncated() {
    assert_eq!(validate(&[0x01]), Err(LayoutError::Truncated));
}

#[test]
fn header_only_record_with_no_slots_is_valid() {
    assert_eq!(validate(&[0x00, 0x00]), Ok(()));
}

#[test]
fn three_declared_slots_with_two_slots_of_payload_mismatch() {
    // Lower, Fold and Upper declared single-width: 6 payload bytes owed,
    // only 4 supplied.
    let bytes = [0x07, 0x00, 0x61, 0x00, 0x62, 0x00];
    assert_eq!(validate(&bytes[..]), Err(LayoutError::SizeMismatch));
}

#[test]
fn three_declared_slots_with_exact_payload_are_valid() {
    let bytes = [0x07, 0x00, 0x61, 0x00, 0x62, 0x00, 0x63, 0x00];
    assert_eq!(validate(&bytes[..]), Ok(()));
}

#[test]
fn excess_payload_mismatches() {
    let bytes = [0x01, 0x00, 0x61, 0x00, 0x00, 0x00];
    assert_eq!(validate(&bytes[..]), Err(LayoutError::SizeMismatch));
}

#[test]
fn double_width_doubles_the_owed_payload() {
    // One slot, double-width: four payload bytes owed.
    assert_eq!(validate(&[0x01, 0x01, 0x61, 0x00, 0x00, 0x00]), Ok(()));
    assert_eq!(validate(&[0x01, 0x01, 0x61, 0x00]), Err(LayoutError::SizeMismatch));
}

#[test]
fn reserved_bit_counts_toward_the_declared_length() {
    // Bit 5 is reserved, but the length check is purely structural: a header
    // with bit 5 set declares one slot.
    assert_eq!(validate(&[0x20, 0x00, 0x00, 0x00]), Ok(()));
    assert_eq!(validate(&[0x20, 0x00]), Err(LayoutError::SizeMismatch));
}
