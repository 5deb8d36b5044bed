use case_exceptions::property_data::BinaryProperty;
use case_exceptions::property_data::Level1;
use case_exceptions::property_data::Main;
use case_exceptions::property_data::RangeError;
use case_exceptions::property_data::ranges_to_char_ranges;

#[test]
fn inclusive_ranges_become_half_open_char_ranges() {
    let ranges = vec![(0x41, 0x5A), (0x61, 0x7A)];
    let out = ranges_to_char_ranges(&ranges).unwrap();
    assert_eq!(out, vec![('A', '['), ('a', '{')]);
}

#[test]
fn empty_range_list_converts_to_nothing() {
    let out = ranges_to_char_ranges(&Vec::new()).unwrap();
    assert!(out.is_empty());
}

#[test]
fn surrogate_start_is_rejected() {
    let ranges = vec![(0xD800, 0xD800)];
    assert_eq!(ranges_to_char_ranges(&ranges), Err(RangeError::InvalidCodePoint));
}

#[test]
fn range_ending_at_the_last_codepoint_is_rejected() {
    // One past 0x10FFFF is no scalar, so the half-open end cannot be a char.
    let ranges = vec![(0x10FFFF, 0x10FFFF)];
    assert_eq!(ranges_to_char_ranges(&ranges), Err(RangeError::InvalidCodePoint));
}

#[test]
fn range_ending_just_below_the_surrogates_is_rejected() {
    // One past 0xD7FF is 0xD800, a surrogate.
    let ranges = vec![(0x0041, 0xD7FF)];
    assert_eq!(ranges_to_char_ranges(&ranges), Err(RangeError::InvalidCodePoint));
}

#[test]
fn numeric_end_overflow_is_rejected() {
    let ranges = vec![(0x41, u32::MAX)];
    assert_eq!(ranges_to_char_ranges(&ranges), Err(RangeError::InvalidCodePoint));
}

#[test]
fn one_bad_range_rejects_the_whole_list() {
    let ranges = vec![(0x41, 0x5A), (0xDFFF, 0xDFFF)];
    assert_eq!(ranges_to_char_ranges(&ranges), Err(RangeError::InvalidCodePoint));
}

#[test]
fn property_file_shape_carries_its_ranges_through() {
    let main = Main {
        unicode_set: Level1 {
            data: BinaryProperty {
                long_name: String::from("White_Space"),
                name: String::from("WSpace"),
                serialized: vec![0, 1, 2],
                ranges: vec![(0x09, 0x0D), (0x20, 0x20)],
            },
        },
    };
    let out = ranges_to_char_ranges(&main.unicode_set.data.ranges).unwrap();
    assert_eq!(out.len(), 2);
    assert_eq!(out[0], ('\u{9}', '\u{E}'));
    assert_eq!(out[1], (' ', '!'));
    assert_eq!(main.unicode_set.data.name, "WSpace");
}
