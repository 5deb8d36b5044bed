use case_exceptions::builder::ExceptionDescription;
use case_exceptions::builder::SignedDelta;
use case_exceptions::slots::MappingKind;
use case_exceptions::table::ExceptionTable;

fn sample_entries() -> Vec<ExceptionDescription> {
    let mut a = ExceptionDescription::empty();
    a.lower = Some('a');
    let mut b = ExceptionDescription::empty();
    b.upper = Some(char::from_u32(0x0001_0400).unwrap());
    b.delta = Some(SignedDelta { magnitude: 40, is_negative: true });
    let mut c = ExceptionDescription::empty();
    c.full_mappings_index = Some(0);
    c.closure_index = Some(4);
    c.no_simple_case_folding = true;
    vec![a, b, c]
}

fn sample_strings() -> Vec<String> {
    vec![
        String::from("ss"),
        String::from("ss"),
        String::from("SS"),
        String::from("Ss"),
        String::from("s\u{017F}"),
    ]
}

#[test]
fn table_serves_each_record_by_index() {
    let entries = sample_entries();
    let table = ExceptionTable::build(&entries, sample_strings());
    assert_eq!(table.len(), 3);

    let first = table.get(0);
    assert_eq!(first.slot_char(MappingKind::Lower), Some('a'));
    assert_eq!(first.delta(), None);

    let second = table.get(1);
    assert_eq!(second.slot_char(MappingKind::Upper), Some(char::from_u32(0x0001_0400).unwrap()));
    assert_eq!(second.delta(), Some(-40));
    assert_eq!(second.slot_char(MappingKind::Lower), None);

    let third = table.get(2);
    assert!(third.no_simple_case_folding());
    assert_eq!(third.closure_string_idx(), Some(4));
}

#[test]
fn records_of_mixed_width_keep_their_offsets() {
    // The middle record is double-width; its neighbours must be unaffected.
    let entries = sample_entries();
    let table = ExceptionTable::build(&entries, Vec::new());
    assert_eq!(table.get(0).slot_char(MappingKind::Lower), Some('a'));
    assert_eq!(table.get(2).closure_string_idx(), Some(4));
}

#[test]
fn string_side_table_resolves_full_mapping_indices() {
    let entries = sample_entries();
    let table = ExceptionTable::build(&entries, sample_strings());
    assert_eq!(table.num_strings(), 5);

    let third = table.get(2);
    let lower_idx = third.full_mapping_idx(MappingKind::Lower).unwrap();
    let upper_idx = third.full_mapping_idx(MappingKind::Upper).unwrap();
    assert_eq!(table.get_string(lower_idx), "ss");
    assert_eq!(table.get_string(upper_idx), "SS");
    let closure_idx = third.closure_string_idx().unwrap();
    assert_eq!(table.get_string(closure_idx), "s\u{017F}");
}

#[test]
fn empty_table_has_no_records() {
    let table = ExceptionTable::build(&Vec::new(), Vec::new());
    assert_eq!(table.len(), 0);
    assert_eq!(table.num_strings(), 0);
}
