//! Every supported primitive category emits a literal that denotes the
//! input value, for every width and signedness.

use uneval_static::ser::{FloatWidth, IntWidth, Uneval};

fn finish(e: Uneval) -> String {
    match e.finish() {
        Ok(s) => s,
        Err(_) => panic!("the walk should be complete"),
    }
}

#[test]
fn bool_literals() {
    let mut e = Uneval::new();
    e.serialize_bool(true).unwrap();
    assert_eq!(finish(e), "true");
    let mut e = Uneval::new();
    e.serialize_bool(false).unwrap();
    assert_eq!(finish(e), "false");
}

#[test]
fn unsigned_literals_every_width() {
    let cases: Vec<(u128, IntWidth, &str)> = vec![
        (12, IntWidth::W8, "12u8"),
        (0, IntWidth::W8, "0u8"),
        (255, IntWidth::W8, "255u8"),
        (65535, IntWidth::W16, "65535u16"),
        (12345, IntWidth::W32, "12345u32"),
        (4294967295, IntWidth::W64, "4294967295u64"),
        (12345, IntWidth::W128, "12345u128"),
        (
            340282366920938463463374607431768211455,
            IntWidth::W128,
            "340282366920938463463374607431768211455u128",
        ),
    ];
    for (v, w, expect) in cases {
        let mut e = Uneval::new();
        e.serialize_unsigned(v, w).unwrap();
        assert_eq!(finish(e), expect);
    }
}

#[test]
fn signed_literals_every_width() {
    let cases: Vec<(i128, IntWidth, &str)> = vec![
        (12, IntWidth::W8, "12i8"),
        (-1, IntWidth::W8, "-1i8"),
        (-128, IntWidth::W8, "-128i8"),
        (-32768, IntWidth::W16, "-32768i16"),
        (0, IntWidth::W32, "0i32"),
        (-2147483648, IntWidth::W64, "-2147483648i64"),
        (
            -170141183460469231731687303715884105728,
            IntWidth::W128,
            "-170141183460469231731687303715884105728i128",
        ),
        (
            170141183460469231731687303715884105727,
            IntWidth::W128,
            "170141183460469231731687303715884105727i128",
        ),
    ];
    for (v, w, expect) in cases {
        let mut e = Uneval::new();
        e.serialize_signed(v, w).unwrap();
        assert_eq!(finish(e), expect);
    }
}

#[test]
fn float_literals_both_widths() {
    // The numeric part is rendered by the caller; the engine appends the
    // width suffix that keeps an integral float a float.
    let one: f32 = 1.0;
    let mut e = Uneval::new();
    e.serialize_float_digits(&format!("{}", one), FloatWidth::F32).unwrap();
    assert_eq!(finish(e), "1f32");

    let f: f64 = 12345.6789;
    let mut e = Uneval::new();
    e.serialize_float_digits(&format!("{}", f), FloatWidth::F64).unwrap();
    assert_eq!(finish(e), "12345.6789f64");

    let neg: f32 = -1.0;
    let mut e = Uneval::new();
    e.serialize_float_digits(&format!("{}", neg), FloatWidth::F32).unwrap();
    assert_eq!(finish(e), "-1f32");
}

#[test]
fn char_literals_escaped() {
    let cases: Vec<(char, &str)> = vec![
        ('c', "'c'"),
        ('\'', "'\\''"),
        ('\\', "'\\\\'"),
        ('\n', "'\\n'"),
        ('\r', "'\\r'"),
        ('\t', "'\\t'"),
        ('"', "'\"'"),
        ('é', "'é'"),
    ];
    for (c, expect) in cases {
        let mut e = Uneval::new();
        e.serialize_char(c).unwrap();
        assert_eq!(finish(e), expect);
    }
}

#[test]
fn string_literals_escaped() {
    let cases: Vec<(&str, &str)> = vec![
        ("string value", "\"string value\""),
        ("", "\"\""),
        ("say \"hi\"", "\"say \\\"hi\\\"\""),
        ("back\\slash", "\"back\\\\slash\""),
        ("line\nbreak", "\"line\\nbreak\""),
        ("tab\there", "\"tab\\there\""),
        ("carriage\rreturn", "\"carriage\\rreturn\""),
        ("unicode é ü", "\"unicode é ü\""),
    ];
    for (s, expect) in cases {
        let mut e = Uneval::new();
        e.serialize_str(s).unwrap();
        assert_eq!(finish(e), expect);
    }
}

#[test]
fn byte_sequences_as_slices() {
    let mut e = Uneval::new();
    e.serialize_bytes(&[1, 2, 3]).unwrap();
    assert_eq!(finish(e), "&[1u8, 2u8, 3u8]");

    let mut e = Uneval::new();
    e.serialize_bytes(&[]).unwrap();
    assert_eq!(finish(e), "&[]");

    let mut e = Uneval::new();
    e.serialize_bytes(&[0, 255]).unwrap();
    assert_eq!(finish(e), "&[0u8, 255u8]");
}

#[test]
fn unit_value() {
    let mut e = Uneval::new();
    e.serialize_unit().unwrap();
    assert_eq!(finish(e), "()");
}
