//! Composite emission rules: aggregates, tuples, sequences, options, and
//! the name-mapping table applied at every printed name.

use uneval_static::ser::Uneval;
use uneval_static::ser::IntWidth;

fn finish(e: Uneval) -> String {
    match e.finish() {
        Ok(s) => s,
        Err(_) => panic!("the walk should be complete"),
    }
}

#[test]
fn named_aggregate_round_trip_shape() {
    // { flag: bool = true, count: u32 = 7, label: string = "hi" }
    let mut e = Uneval::new();
    e.begin_struct("Name").unwrap();
    e.struct_field("flag").unwrap();
    e.serialize_bool(true).unwrap();
    e.struct_field("count").unwrap();
    e.serialize_unsigned(7, IntWidth::W32).unwrap();
    e.struct_field("label").unwrap();
    e.serialize_str("hi").unwrap();
    e.end_struct().unwrap();
    assert_eq!(finish(e), "Name { flag: true, count: 7u32, label: \"hi\" }");
}

#[test]
fn optional_with_present_sequence() {
    // Some([1u8, 2u8, 3u8]) as a newtype wrapper around a borrowed slice.
    let mut e = Uneval::new();
    e.begin_newtype("Some").unwrap();
    e.begin_seq().unwrap();
    for v in [1u128, 2, 3] {
        e.seq_element().unwrap();
        e.serialize_unsigned(v, IntWidth::W8).unwrap();
    }
    e.end_seq().unwrap();
    e.end_newtype().unwrap();
    assert_eq!(finish(e), "Some(&[1u8, 2u8, 3u8])");
}

#[test]
fn absent_optional_is_bare_name() {
    let mut e = Uneval::new();
    e.serialize_unit_name("None").unwrap();
    assert_eq!(finish(e), "None");
}

#[test]
fn zero_length_tuple_collapses_to_unit() {
    let mut e = Uneval::new();
    e.begin_tuple(0).unwrap();
    e.end_tuple().unwrap();
    assert_eq!(finish(e), "()");

    // The collapse holds regardless of the declared element type, so any
    // zero-length fixed sequence prints the same unit literal — and no
    // element may arrive after the collapse.
    let mut e = Uneval::new();
    e.begin_tuple(0).unwrap();
    assert!(e.tuple_element().is_err());
    e.end_tuple().unwrap();
    assert_eq!(finish(e), "()");
}

#[test]
fn nonzero_tuple_is_parenthesized() {
    let mut e = Uneval::new();
    e.begin_tuple(3).unwrap();
    e.tuple_element().unwrap();
    e.serialize_unsigned(1, IntWidth::W32).unwrap();
    e.tuple_element().unwrap();
    e.serialize_unsigned(2, IntWidth::W32).unwrap();
    e.tuple_element().unwrap();
    e.serialize_unsigned(3, IntWidth::W32).unwrap();
    e.end_tuple().unwrap();
    assert_eq!(finish(e), "(1u32, 2u32, 3u32)");
}

#[test]
fn tuple_aggregate_with_name() {
    let mut e = Uneval::new();
    e.begin_tuple_name("TargetStruct", 1).unwrap();
    e.tuple_element().unwrap();
    e.serialize_unit().unwrap();
    e.end_tuple().unwrap();
    assert_eq!(finish(e), "TargetStruct(())");
}

#[test]
fn zero_field_tuple_aggregate_degrades_to_unit_rule() {
    let mut e = Uneval::new();
    e.begin_tuple_name("Marker", 0).unwrap();
    e.end_tuple().unwrap();
    assert_eq!(finish(e), "Marker");
}

#[test]
fn newtype_aggregate_wraps_inner_value() {
    let mut e = Uneval::new();
    e.begin_newtype("Wrapper").unwrap();
    e.serialize_signed(-5, IntWidth::W16).unwrap();
    e.end_newtype().unwrap();
    assert_eq!(finish(e), "Wrapper(-5i16)");
}

#[test]
fn empty_sequence() {
    let mut e = Uneval::new();
    e.begin_seq().unwrap();
    e.end_seq().unwrap();
    assert_eq!(finish(e), "&[]");
}

#[test]
fn nested_aggregates() {
    let mut e = Uneval::new();
    e.begin_struct("Outer").unwrap();
    e.struct_field("inner").unwrap();
    e.begin_struct("Inner").unwrap();
    e.struct_field("x").unwrap();
    e.serialize_unsigned(1, IntWidth::W8).unwrap();
    e.end_struct().unwrap();
    e.struct_field("more").unwrap();
    e.begin_seq().unwrap();
    e.seq_element().unwrap();
    e.serialize_bool(false).unwrap();
    e.end_seq().unwrap();
    e.end_struct().unwrap();
    assert_eq!(finish(e), "Outer { inner: Inner { x: 1u8 }, more: &[false] }");
}

#[test]
fn mapped_names_are_applied_everywhere() {
    let mut e = Uneval::new();
    e.add_mapping(String::from("Input"), String::from("&Output"));
    e.add_mapping(String::from("vector"), String::from("slice"));
    e.begin_struct("Input").unwrap();
    e.struct_field("vector").unwrap();
    e.begin_seq().unwrap();
    e.seq_element().unwrap();
    e.serialize_signed(1, IntWidth::W32).unwrap();
    e.end_seq().unwrap();
    e.end_struct().unwrap();
    assert_eq!(finish(e), "&Output { slice: &[1i32] }");
}

#[test]
fn closing_what_is_not_open_is_refused_and_harmless() {
    let mut e = Uneval::new();
    assert!(e.end_struct().is_err());
    assert!(e.end_seq().is_err());
    assert!(e.end_tuple().is_err());
    assert!(e.end_newtype().is_err());
    e.serialize_bool(true).unwrap();
    assert_eq!(finish(e), "true");
}

#[test]
fn unfinished_walk_exposes_no_text() {
    let mut e = Uneval::new();
    e.begin_struct("Name").unwrap();
    e.struct_field("flag").unwrap();
    e.serialize_bool(true).unwrap();
    assert!(e.finish().is_err());
}
