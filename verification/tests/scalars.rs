use hardware_ingest::number::{parse_scalar, plain_number};
use hardware_ingest::scalar::{
    scalar_is_finite, scalar_is_positive, scalar_le, scalar_lt, scalar_negate, widen_single,
};

fn chars(s: &str) -> Vec<char> {
    s.chars().collect()
}

fn parsed(s: &str) -> Option<f64> {
    parse_scalar(&chars(s)).map(f64::from_bits)
}

#[test]
fn order_of_patterns_is_the_order_of_the_numbers() {
    let values = [
        f64::NEG_INFINITY,
        -1.0e300,
        -2.5,
        -1.0,
        -f64::MIN_POSITIVE,
        -5e-324,
        -0.0,
        0.0,
        5e-324,
        f64::MIN_POSITIVE,
        0.75,
        1.0,
        2.5,
        1.0e300,
        f64::INFINITY,
    ];
    for a in values {
        for b in values {
            assert_eq!(scalar_le(a.to_bits(), b.to_bits()), a <= b, "{a} <= {b}");
            assert_eq!(scalar_lt(a.to_bits(), b.to_bits()), a < b, "{a} < {b}");
        }
    }
}

#[test]
fn both_zeros_are_equal() {
    assert!(scalar_le(0.0f64.to_bits(), (-0.0f64).to_bits()));
    assert!(scalar_le((-0.0f64).to_bits(), 0.0f64.to_bits()));
    assert!(!scalar_lt((-0.0f64).to_bits(), 0.0f64.to_bits()));
}

#[test]
fn finite_and_positive_patterns() {
    assert!(scalar_is_finite(1.5f64.to_bits()));
    assert!(scalar_is_finite((-0.0f64).to_bits()));
    assert!(scalar_is_finite(f64::MAX.to_bits()));
    assert!(!scalar_is_finite(f64::INFINITY.to_bits()));
    assert!(!scalar_is_finite(f64::NEG_INFINITY.to_bits()));
    assert!(!scalar_is_finite(f64::NAN.to_bits()));
    assert!(scalar_is_positive(0.25f64.to_bits()));
    assert!(scalar_is_positive(5e-324f64.to_bits()));
    assert!(!scalar_is_positive(0.0f64.to_bits()));
    assert!(!scalar_is_positive((-0.0f64).to_bits()));
    assert!(!scalar_is_positive((-3.0f64).to_bits()));
    assert!(!scalar_is_positive(f64::INFINITY.to_bits()));
    assert!(!scalar_is_positive(f64::NAN.to_bits()));
}

#[test]
fn widening_is_exact() {
    let mut patterns: Vec<u32> = vec![
        0,
        1,
        2,
        3,
        0x0000_8000,
        0x0040_0000,
        0x007f_ffff,
        0x0080_0000,
        0x0080_0001,
        0x3f80_0000,
        0x4049_0fdb,
        0x7f7f_ffff,
        0x7f80_0000,
        0x7fc0_0000,
    ];
    let mut x: u32 = 0x1234_5678;
    for _ in 0..2000 {
        x = x.wrapping_mul(1_664_525).wrapping_add(1_013_904_223);
        if f32::from_bits(x).is_nan() {
            continue;
        }
        patterns.push(x);
        patterns.push(x & 0x807f_ffff);
    }
    for p in patterns {
        for bits in [p, p | 0x8000_0000] {
            let expected = (f32::from_bits(bits) as f64).to_bits();
            assert_eq!(widen_single(bits), expected, "pattern {bits:#x}");
        }
    }
}

#[test]
fn decimal_literals() {
    assert_eq!(parsed("1.5"), Some(1.5));
    assert_eq!(parsed("+1.5"), Some(1.5));
    assert_eq!(parsed("-1.5"), Some(-1.5));
    assert_eq!(parsed(".5"), Some(0.5));
    assert_eq!(parsed("5."), Some(5.0));
    assert_eq!(parsed("007"), Some(7.0));
    assert_eq!(parsed("00.50"), Some(0.5));
    assert_eq!(parsed("0"), Some(0.0));
    assert_eq!(parsed("1e3"), Some(1000.0));
    assert_eq!(parsed("1E+3"), Some(1000.0));
    assert_eq!(parsed("2.5e-1"), Some(0.25));
    assert_eq!(parsed("-.5e1"), Some(-5.0));
    assert_eq!(parsed("3.141592653589793"), Some(3.141592653589793));
    assert_eq!(parsed("123456789012345678901234567890"), Some(1.2345678901234568e29));
    assert_eq!(parsed("1e-999"), Some(0.0));
    assert_eq!(parse_scalar(&chars("-0")), Some((-0.0f64).to_bits()));
    assert_eq!(parse_scalar(&chars("-0.0")), Some((-0.0f64).to_bits()));
}

#[test]
fn texts_that_are_no_literals() {
    for s in [
        "", "+", "-", ".", "e5", "1e", "1e+", "1.2.3", "0x10", "inf", "nan", "NaN", "1 ", " 1", "12abc",
        "1,5", "--1", "1e5.5", "1e999", "-1e999", "١",
    ] {
        assert_eq!(parsed(s), None, "{s:?}");
    }
}

#[test]
fn negation() {
    for x in [1.5f64, -1.5, 5e-324, -5e-324, f64::MAX, f64::MIN, f64::INFINITY, f64::NEG_INFINITY] {
        assert_eq!(scalar_negate(x.to_bits()), (-x).to_bits());
    }
    assert_eq!(scalar_negate(0.0f64.to_bits()), 0.0f64.to_bits());
    assert_eq!(scalar_negate((-0.0f64).to_bits()), 0.0f64.to_bits());
}

#[test]
fn shortest_forms_of_plain_literals() {
    let form = |s: &str| plain_number(&chars(s)).map(|v| v.into_iter().collect::<String>());
    for (text, expected) in [
        ("700", "700"),
        ("700.0", "700"),
        ("+0700.00", "700"),
        ("0700.", "700"),
        ("-14", "-14"),
        ("-014.50", "-14.5"),
        (".5", "0.5"),
        ("-.50", "-0.5"),
        ("0.05", "0.05"),
        ("100", "100"),
        ("1.010", "1.01"),
        ("0", "0"),
        ("-0", "0"),
        ("+0.000", "0"),
        ("-.0", "0"),
        ("000", "0"),
    ] {
        assert_eq!(form(text).as_deref(), Some(expected), "{text}");
    }
    for text in ["", "-", ".", "1e3", "7.0e2", "Tj", "1.2.3", "0x10", "1 ", "--1"] {
        assert_eq!(form(text), None, "{text:?}");
    }
}
