use kuna::decimal::{parse_decimal, text_to_i32, text_to_u32, Decimal};
use kuna::text::{i64_to_string, u64_to_string};

fn dec(neg: bool, mantissa: u64, scale: u32) -> Decimal {
    Decimal { neg, mantissa, scale }
}

#[test]
fn parses_plain_integers() {
    assert_eq!(parse_decimal("0"), Some(dec(false, 0, 0)));
    assert_eq!(parse_decimal("42"), Some(dec(false, 42, 0)));
    assert_eq!(parse_decimal("-7"), Some(dec(true, 7, 0)));
    assert_eq!(parse_decimal("007"), Some(dec(false, 7, 0)));
}

#[test]
fn parses_fractional_literals() {
    assert_eq!(parse_decimal("102.50"), Some(dec(false, 10250, 2)));
    assert_eq!(parse_decimal("-2.5"), Some(dec(true, 25, 1)));
    assert_eq!(parse_decimal("0.05"), Some(dec(false, 5, 2)));
    assert_eq!(parse_decimal("-0.0"), Some(dec(true, 0, 1)));
}

#[test]
fn rejects_malformed_literals() {
    assert_eq!(parse_decimal(""), None);
    assert_eq!(parse_decimal("-"), None);
    assert_eq!(parse_decimal("abc"), None);
    assert_eq!(parse_decimal("1.2.3"), None);
    assert_eq!(parse_decimal(".5"), None);
    assert_eq!(parse_decimal("5."), None);
    assert_eq!(parse_decimal("--1"), None);
    assert_eq!(parse_decimal("1e5"), None);
    assert_eq!(parse_decimal("inf"), None);
    assert_eq!(parse_decimal(" 1"), None);
}

#[test]
fn rejects_literals_beyond_the_representation() {
    assert_eq!(
        parse_decimal("18446744073709551615"),
        Some(dec(false, u64::MAX, 0))
    );
    assert_eq!(parse_decimal("18446744073709551616"), None);
    assert_eq!(
        parse_decimal("0.1234567890123456789"),
        Some(dec(false, 1234567890123456789, 19))
    );
    assert_eq!(parse_decimal("0.12345678901234567891"), None);
}

#[test]
fn value_comparison_ignores_trailing_fractional_zeros() {
    assert!(dec(false, 10250, 2).same_value(&dec(false, 1025, 1)));
    assert!(dec(false, 1, 0).same_value(&dec(false, 100, 2)));
    assert!(dec(true, 25, 1).same_value(&dec(true, 2500, 3)));
    assert!(!dec(false, 10250, 2).same_value(&dec(false, 1025, 2)));
    assert!(!dec(true, 25, 1).same_value(&dec(false, 25, 1)));
}

#[test]
fn negative_zero_has_the_value_of_zero() {
    assert!(dec(true, 0, 1).same_value(&dec(false, 0, 0)));
    assert!(!dec(true, 0, 1).is_strictly_neg());
    assert!(!dec(true, 0, 1).is_strictly_pos());
}

#[test]
fn sign_predicates_follow_the_denoted_number() {
    assert!(dec(true, 25, 1).is_strictly_neg());
    assert!(dec(false, 25, 1).is_strictly_pos());
    assert!(!dec(false, 0, 0).is_strictly_pos());
    assert_eq!(dec(true, 25, 1).abs(), dec(false, 25, 1));
    assert_eq!(dec(false, 25, 1).negate(), dec(true, 25, 1));
}

#[test]
fn integer_reading_respects_type_ranges() {
    assert_eq!(text_to_i32("2147483647"), Some(2147483647));
    assert_eq!(text_to_i32("-2147483648"), Some(-2147483648));
    assert_eq!(text_to_i32("2147483648"), None);
    assert_eq!(text_to_i32("-2147483649"), None);
    assert_eq!(text_to_i32("1.0"), None);
    assert_eq!(text_to_i32("x"), None);
    assert_eq!(text_to_u32("4294967295"), Some(4294967295));
    assert_eq!(text_to_u32("4294967296"), None);
    assert_eq!(text_to_u32("-1"), None);
    assert_eq!(text_to_u32("-0"), Some(0));
}

#[test]
fn renders_unsigned_decimals() {
    assert_eq!(u64_to_string(0), "0");
    assert_eq!(u64_to_string(12345), "12345");
    assert_eq!(u64_to_string(u64::MAX), "18446744073709551615");
}

#[test]
fn renders_signed_decimals() {
    assert_eq!(i64_to_string(0), "0");
    assert_eq!(i64_to_string(-7), "-7");
    assert_eq!(i64_to_string(i64::MIN), "-9223372036854775808");
}

#[test]
fn renders_decimals_for_the_wire() {
    assert_eq!(dec(false, 10250, 2).to_wire(), "102.50");
    assert_eq!(dec(true, 25, 1).to_wire(), "-2.5");
    assert_eq!(dec(false, 1000, 1).to_wire(), "100.0");
    assert_eq!(dec(false, 5, 2).to_wire(), "0.05");
    assert_eq!(dec(false, 5, 4).to_wire(), "0.0005");
    assert_eq!(dec(false, 42, 0).to_wire(), "42");
    assert_eq!(dec(true, 0, 1).to_wire(), "-0.0");
}

#[test]
fn wire_rendering_round_trips_through_the_parser() {
    let samples = vec![
        dec(false, 10250, 2),
        dec(true, 25, 1),
        dec(false, 0, 0),
        dec(false, 5, 4),
        dec(true, 9007, 3),
    ];
    for d in samples {
        assert_eq!(parse_decimal(&d.to_wire()), Some(d));
    }
}
