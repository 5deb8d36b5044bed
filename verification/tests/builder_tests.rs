use case_exceptions::builder::DecodeError;
use case_exceptions::builder::ExceptionDescription;
use case_exceptions::builder::SignedDelta;
use case_exceptions::builder::build;
use case_exceptions::builder::decode;
use case_exceptions::slots::DotType;
use case_exceptions::validate::LayoutError;
use case_exceptions::validate::validate;

#[test]
fn empty_description_builds_a_bare_header() {
    let d = ExceptionDescription::empty();
    let bytes = build(&d);
    assert_eq!(bytes, vec![0x00, 0x00]);
    assert_eq!(decode(&bytes), Ok(d));
}

#[test]
fn lower_only_description_builds_exact_bytes() {
    let mut d = ExceptionDescription::empty();
    d.lower = Some('a');
    let bytes = build(&d);
    assert_eq!(bytes, vec![0x01, 0x00, 0x61, 0x00]);
    assert_eq!(decode(&bytes), Ok(d));
}

#[test]
fn negative_delta_builds_sign_flag_and_magnitude() {
    let mut d = ExceptionDescription::empty();
    d.delta = Some(SignedDelta { magnitude: 1, is_negative: true });
    let bytes = build(&d);
    assert_eq!(bytes, vec![0x10, 0x04, 0x01, 0x00]);
    assert_eq!(decode(&bytes), Ok(d));
}

#[test]
fn supplementary_codepoint_forces_double_width() {
    let mut d = ExceptionDescription::empty();
    d.upper = Some(char::from_u32(0x0001_0400).unwrap());
    let bytes = build(&d);
    // Double-width flag set; high word before low word.
    assert_eq!(bytes, vec![0x04, 0x01, 0x01, 0x00, 0x00, 0x04]);
    assert_eq!(decode(&bytes), Ok(d));
}

#[test]
fn large_delta_magnitude_forces_double_width() {
    let mut d = ExceptionDescription::empty();
    d.lower = Some('a');
    d.delta = Some(SignedDelta { magnitude: 0x0002_0001, is_negative: false });
    let bytes = build(&d);
    // Two slots, four bytes each; 'a' widens with the record.
    assert_eq!(bytes, vec![0x11, 0x01, 0x00, 0x00, 0x61, 0x00, 0x02, 0x00, 0x01, 0x00]);
    assert_eq!(decode(&bytes), Ok(d));
}

#[test]
fn every_field_round_trips() {
    let d = ExceptionDescription {
        lower: Some('i'),
        fold: Some(char::from_u32(0x0131).unwrap()),
        upper: Some('I'),
        title: Some(char::from_u32(0x0130).unwrap()),
        delta: Some(SignedDelta { magnitude: 199, is_negative: true }),
        closure_index: Some(3),
        full_mappings_index: Some(8),
        no_simple_case_folding: true,
        is_sensitive: true,
        has_conditional_special: true,
        has_conditional_fold: true,
        dot_type: DotType::SoftDotted,
    };
    let bytes = build(&d);
    assert_eq!(validate(&bytes), Ok(()));
    assert_eq!(decode(&bytes), Ok(d));
}

#[test]
fn mixed_double_width_record_round_trips() {
    let d = ExceptionDescription {
        lower: Some(char::from_u32(0x0001_0428).unwrap()),
        fold: None,
        upper: Some(char::from_u32(0x0001_0400).unwrap()),
        title: None,
        delta: None,
        closure_index: Some(70000),
        full_mappings_index: None,
        no_simple_case_folding: false,
        is_sensitive: false,
        has_conditional_special: false,
        has_conditional_fold: false,
        dot_type: DotType::OtherAccent,
    };
    let bytes = build(&d);
    assert_eq!(validate(&bytes), Ok(()));
    assert_eq!(decode(&bytes), Ok(d));
}

#[test]
fn zero_magnitude_delta_keeps_its_sign_flag() {
    let mut d = ExceptionDescription::empty();
    d.delta = Some(SignedDelta { magnitude: 0, is_negative: true });
    let bytes = build(&d);
    assert_eq!(decode(&bytes), Ok(d));
}

#[test]
fn decode_reports_truncation() {
    assert_eq!(decode(&[0x01]), Err(DecodeError::Layout(LayoutError::Truncated)));
}

#[test]
fn decode_reports_size_mismatch() {
    let bytes = [0x07, 0x00, 0x61, 0x00, 0x62, 0x00];
    assert_eq!(decode(&bytes[..]), Err(DecodeError::Layout(LayoutError::SizeMismatch)));
}

#[test]
fn decode_reports_an_invalid_codepoint() {
    let bytes = [0x01, 0x00, 0x00, 0xD8];
    assert_eq!(decode(&bytes[..]), Err(DecodeError::InvalidCodePoint));
}

#[test]
fn decode_accepts_a_non_scalar_delta() {
    // Only char-valued slots are checked for scalar values; a delta
    // magnitude in the surrogate range is plain data.
    let bytes = [0x10, 0x00, 0x00, 0xD8];
    let d = decode(&bytes[..]).unwrap();
    assert_eq!(d.delta, Some(SignedDelta { magnitude: 0xD800, is_negative: false }));
}
