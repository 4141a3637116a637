//! String-keyed maps: accumulation, the deferred perfect-hash literal,
//! duplicate keys, and the unsupported non-string-key shape.

use uneval_static::maps::build_map_text;
use uneval_static::ser::{IntWidth, Uneval};
use uneval_static::UnevalError;

fn finish(e: Uneval) -> String {
    match e.finish() {
        Ok(s) => s,
        Err(_) => panic!("the walk should be complete"),
    }
}

fn emit_map(entries: &[(&str, u128)]) -> String {
    let mut e = Uneval::new();
    e.begin_map().unwrap();
    for (k, v) in entries {
        e.begin_map_key().unwrap();
        e.serialize_str(k).unwrap();
        e.end_map_key().unwrap();
        e.begin_map_value().unwrap();
        e.serialize_unsigned(*v, IntWidth::W8).unwrap();
        e.end_map_value().unwrap();
    }
    e.end_map().unwrap();
    finish(e)
}

#[test]
fn map_emits_the_perfect_hash_literal() {
    let out = emit_map(&[("alpha", 1), ("beta", 2), ("gamma", 3)]);
    // The same entries handed to the generator directly give the same text.
    let mut b = phf_codegen::Map::new();
    b.entry("alpha", "1u8");
    b.entry("beta", "2u8");
    b.entry("gamma", "3u8");
    let expect = format!("{}", b.build());
    assert_eq!(out, expect);
}

#[test]
fn map_registers_every_key_with_its_value_text() {
    let out = emit_map(&[("alpha", 1), ("beta", 2), ("gamma", 3)]);
    // Each of the N keys carries exactly the value text registered for it.
    assert!(out.contains("(\"alpha\", 1u8)"));
    assert!(out.contains("(\"beta\", 2u8)"));
    assert!(out.contains("(\"gamma\", 3u8)"));
    // An absent key appears nowhere in the emitted structure.
    assert!(!out.contains("delta"));
}

#[test]
fn empty_map() {
    let out = emit_map(&[]);
    let b = phf_codegen::Map::<&str>::new();
    let expect = format!("{}", b.build());
    assert_eq!(out, expect);
}

#[test]
fn map_value_may_be_a_composite() {
    let mut e = Uneval::new();
    e.begin_map().unwrap();
    e.begin_map_key().unwrap();
    e.serialize_str("key").unwrap();
    e.end_map_key().unwrap();
    e.begin_map_value().unwrap();
    e.begin_tuple_name("Unit", 1).unwrap();
    e.tuple_element().unwrap();
    e.serialize_unit().unwrap();
    e.end_tuple().unwrap();
    e.end_map_value().unwrap();
    e.end_map().unwrap();
    let out = finish(e);
    assert!(out.contains("(\"key\", Unit(()))"));
}

#[test]
fn duplicate_keys_are_an_error_not_a_panic() {
    // The behaviour for a key appearing twice is a deliberate choice: the
    // whole map is refused with the unsupported-shape error.
    let mut e = Uneval::new();
    e.begin_map().unwrap();
    for (k, v) in [("twice", 1u128), ("twice", 2u128)] {
        e.begin_map_key().unwrap();
        e.serialize_str(k).unwrap();
        e.end_map_key().unwrap();
        e.begin_map_value().unwrap();
        e.serialize_unsigned(v, IntWidth::W8).unwrap();
        e.end_map_value().unwrap();
    }
    let r = e.end_map();
    assert!(matches!(r, Err(UnevalError::Custom(_))));
    // The map never closed, so no text is handed out.
    assert!(e.finish().is_err());
}

#[test]
fn builder_rejects_duplicates_and_builds_the_rest() {
    let good: Vec<(String, String)> = vec![
        (String::from("a"), String::from("1u8")),
        (String::from("b"), String::from("2u8")),
    ];
    let text = match build_map_text(&good) {
        Ok(t) => t,
        Err(_) => panic!("distinct keys must build"),
    };
    assert!(text.contains("(\"a\", 1u8)"));
    assert!(text.contains("(\"b\", 2u8)"));

    let bad: Vec<(String, String)> = vec![
        (String::from("a"), String::from("1u8")),
        (String::from("a"), String::from("2u8")),
    ];
    assert!(matches!(build_map_text(&bad), Err(UnevalError::Custom(_))));
}

#[test]
fn non_string_map_key_is_unsupported_shape() {
    let mut e = Uneval::new();
    e.begin_map().unwrap();
    e.begin_map_key().unwrap();
    // An integer where the key string must stand.
    let r = e.serialize_unsigned(1, IntWidth::W32);
    assert!(matches!(r, Err(UnevalError::Custom(_))));
    // The buffer produced so far is never exposed: the walk cannot finish.
    assert!(e.finish().is_err());
}

#[test]
fn a_value_cannot_stand_where_a_key_is_due() {
    let mut e = Uneval::new();
    e.begin_map().unwrap();
    // No key was opened: no bare value may arrive inside the map.
    assert!(matches!(e.serialize_bool(true), Err(UnevalError::Custom(_))));
    assert!(matches!(e.serialize_str("loose"), Err(UnevalError::Custom(_))));
    // The map is still intact and usable.
    e.begin_map_key().unwrap();
    e.serialize_str("k").unwrap();
    e.end_map_key().unwrap();
    e.begin_map_value().unwrap();
    e.serialize_unsigned(1, IntWidth::W8).unwrap();
    e.end_map_value().unwrap();
    e.end_map().unwrap();
    let out = finish(e);
    assert!(out.contains("(\"k\", 1u8)"));
}

#[test]
fn non_string_composite_key_is_unsupported_shape() {
    let mut e = Uneval::new();
    e.begin_map().unwrap();
    e.begin_map_key().unwrap();
    assert!(matches!(e.begin_seq(), Err(UnevalError::Custom(_))));
    assert!(matches!(e.serialize_bool(true), Err(UnevalError::Custom(_))));
    assert!(matches!(e.serialize_char('x'), Err(UnevalError::Custom(_))));
    assert!(matches!(e.serialize_bytes(&[1]), Err(UnevalError::Custom(_))));
}

#[test]
fn nested_maps_build_inner_literal_into_outer_value() {
    let mut e = Uneval::new();
    e.begin_map().unwrap();
    e.begin_map_key().unwrap();
    e.serialize_str("outer").unwrap();
    e.end_map_key().unwrap();
    e.begin_map_value().unwrap();
    e.begin_map().unwrap();
    e.begin_map_key().unwrap();
    e.serialize_str("inner").unwrap();
    e.end_map_key().unwrap();
    e.begin_map_value().unwrap();
    e.serialize_unsigned(9, IntWidth::W8).unwrap();
    e.end_map_value().unwrap();
    e.end_map().unwrap();
    e.end_map_value().unwrap();
    e.end_map().unwrap();
    let out = finish(e);

    let mut inner = phf_codegen::Map::new();
    inner.entry("inner", "9u8");
    let inner_text = format!("{}", inner.build());
    let mut outer = phf_codegen::Map::new();
    outer.entry("outer", inner_text.as_str());
    let expect = format!("{}", outer.build());
    assert_eq!(out, expect);
}
