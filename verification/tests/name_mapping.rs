//! The rename table: overwriting inserts, pass-through of unmapped names,
//! and the error taxonomy around the engine.

use uneval_static::NameMap;
use uneval_static::ser::Uneval;
use uneval_static::UnevalError;

#[test]
fn later_mapping_overwrites_earlier_one() {
    let mut m = NameMap::new();
    m.add_mapping(String::from("k"), String::from("v1"));
    m.add_mapping(String::from("k"), String::from("v2"));
    assert_eq!(m.resolve("k"), "v2");
}

#[test]
fn unmapped_names_pass_through() {
    let m = NameMap::new();
    assert_eq!(m.resolve("Anything"), "Anything");
    let mut m = NameMap::new();
    m.add_mapping(String::from("a"), String::from("b"));
    assert_eq!(m.resolve("c"), "c");
}

#[test]
fn engine_table_behaves_the_same() {
    let mut e = Uneval::new();
    e.add_mapping(String::from("k"), String::from("v1"));
    e.add_mapping(String::from("k"), String::from("v2"));
    assert_eq!(e.resolve("k"), "v2");
    assert_eq!(e.resolve("other"), "other");
}

#[test]
fn garbage_replacements_are_not_validated() {
    // A documented limitation: no identifier syntax is checked.
    let mut m = NameMap::new();
    m.add_mapping(String::from("T"), String::from("not an identifier!"));
    assert_eq!(m.resolve("T"), "not an identifier!");
}

#[test]
fn custom_constructor_wraps_the_message() {
    let e = UnevalError::custom(String::from("boom"));
    assert!(matches!(e, UnevalError::Custom(m) if m == "boom"));
}

#[test]
fn error_variants_carry_their_messages() {
    // The taxonomy: driver I/O, text encoding, builder serialization, and
    // the generic escape hatch.
    let io = UnevalError::Io(String::from("write failed"));
    let utf8 = UnevalError::Utf8(String::from("bad bytes"));
    let inner = UnevalError::Inner(String::from("buffer lost"));
    let json = UnevalError::Json(String::from("key text"));
    assert!(matches!(io, UnevalError::Io(_)));
    assert!(matches!(utf8, UnevalError::Utf8(_)));
    assert!(matches!(inner, UnevalError::Inner(_)));
    assert!(matches!(json, UnevalError::Json(_)));
}
