use csv_payment_engine::util::amount::{fixed_point_of, format_amount_to_string, parse_amount_fixed_decimal};
use csv_payment_engine::util::decimal::DecimalParts;

#[test]
fn parse_trims_whitespace() {
    assert_eq!(parse_amount_fixed_decimal(" 1.2345 ").unwrap(), 12_345);
    assert_eq!(parse_amount_fixed_decimal("\n\t0.0001\r").unwrap(), 1);
}

#[test]
fn parse_integer_and_simple_decimals() {
    assert_eq!(parse_amount_fixed_decimal("0").unwrap(), 0);
    assert_eq!(parse_amount_fixed_decimal("1").unwrap(), 10_000);
    assert_eq!(parse_amount_fixed_decimal("1.0").unwrap(), 10_000);
    assert_eq!(parse_amount_fixed_decimal("1.2").unwrap(), 12_000);
    assert_eq!(parse_amount_fixed_decimal("1.23").unwrap(), 12_300);
    assert_eq!(parse_amount_fixed_decimal("1.234").unwrap(), 12_340);
    assert_eq!(parse_amount_fixed_decimal("1.2345").unwrap(), 12_345);
}

#[test]
fn parse_leading_zeros_and_dot_forms() {
    assert_eq!(parse_amount_fixed_decimal("0001.2300").unwrap(), 12_300);
    assert_eq!(parse_amount_fixed_decimal("0.5").unwrap(), 5_000);
    assert_eq!(parse_amount_fixed_decimal(".5").unwrap(), 5_000);
    assert_eq!(parse_amount_fixed_decimal("1.").unwrap(), 10_000);
}

#[test]
fn parse_negative_amounts() {
    assert_eq!(parse_amount_fixed_decimal("-1").unwrap(), -10_000);
    assert_eq!(parse_amount_fixed_decimal("-1.2345").unwrap(), -12_345);
    assert_eq!(parse_amount_fixed_decimal("-0.0001").unwrap(), -1);
}

#[test]
fn parse_truncates_more_than_four_decimals_toward_zero() {
    assert_eq!(parse_amount_fixed_decimal("1.23456").unwrap(), 12_345);
    assert_eq!(parse_amount_fixed_decimal("1.23459").unwrap(), 12_345);

    assert_eq!(parse_amount_fixed_decimal("-1.23456").unwrap(), -12_345);
    assert_eq!(parse_amount_fixed_decimal("-0.00019").unwrap(), -1);
}

#[test]
fn parse_rejects_invalid_inputs() {
    assert!(parse_amount_fixed_decimal("").is_err());
    assert!(parse_amount_fixed_decimal("   ").is_err());
    assert!(parse_amount_fixed_decimal("abc").is_err());
    assert!(parse_amount_fixed_decimal("1.2.3").is_err());
    assert!(parse_amount_fixed_decimal("--1").is_err());
    assert!(parse_amount_fixed_decimal("1e-3").is_err());
}

#[test]
fn format_basic_values() {
    assert_eq!(format_amount_to_string(0), "0");
    assert_eq!(format_amount_to_string(10_000), "1");
    assert_eq!(format_amount_to_string(12_000), "1.2");
    assert_eq!(format_amount_to_string(12_300), "1.23");
    assert_eq!(format_amount_to_string(12_340), "1.234");
    assert_eq!(format_amount_to_string(12_345), "1.2345");
}

#[test]
fn format_small_and_negative_values() {
    assert_eq!(format_amount_to_string(1), "0.0001");
    assert_eq!(format_amount_to_string(10), "0.001");
    assert_eq!(format_amount_to_string(100), "0.01");
    assert_eq!(format_amount_to_string(1000), "0.1");

    assert_eq!(format_amount_to_string(-1), "-0.0001");
    assert_eq!(format_amount_to_string(-10_000), "-1");
    assert_eq!(format_amount_to_string(-12_345), "-1.2345");
}

#[test]
fn parse_format_round_trip_on_scaled_values() {
    let samples: [i64; 10] = [0, 1, 10, 100, 9999, 10_000, 12_345, 1_000_000, -1, -98_765];

    for &v in &samples {
        let s = format_amount_to_string(v);
        let parsed = parse_amount_fixed_decimal(&s).unwrap();
        assert_eq!(parsed, v as i128, "round-trip failed for v={v} s={s}");
    }
}

#[test]
fn round_trip_at_the_limits_of_i64() {
    for &v in &[i64::MAX, i64::MIN, i64::MAX - 1, i64::MIN + 1] {
        let s = format_amount_to_string(v);
        assert_eq!(parse_amount_fixed_decimal(&s).unwrap(), v as i128, "s={s}");
    }
    assert_eq!(format_amount_to_string(i64::MIN), "-922337203685477.5808");
}

#[test]
fn parse_scales_up_integers_and_keeps_large_values() {
    assert_eq!(parse_amount_fixed_decimal("922337203685477.5807").unwrap(), i64::MAX as i128);
    assert_eq!(parse_amount_fixed_decimal("123456789012345678").unwrap(), 1_234_567_890_123_456_780_000);
}

#[test]
fn parse_error_carries_a_message() {
    let err = parse_amount_fixed_decimal("abc").unwrap_err();
    match err {
        csv_payment_engine::util::amount::AmountError::InvalidDecimal(message) => assert!(!message.is_empty()),
    }
}

#[test]
fn fixed_point_truncates_and_scales() {
    assert_eq!(fixed_point_of(DecimalParts { mantissa: 123_456, scale: 5 }), 12_345);
    assert_eq!(fixed_point_of(DecimalParts { mantissa: -19, scale: 5 }), -1);
    assert_eq!(fixed_point_of(DecimalParts { mantissa: 12, scale: 1 }), 12_000);
    assert_eq!(fixed_point_of(DecimalParts { mantissa: 7, scale: 4 }), 7);
    // Scaling stops where the mantissa would leave 96 bits.
    let max: i128 = (1 << 96) - 1;
    assert_eq!(fixed_point_of(DecimalParts { mantissa: max, scale: 0 }), max);
}

#[test]
fn parse_rejects_foreign_characters_and_accepts_bare_points() {
    assert!(parse_amount_fixed_decimal("1,5").is_err());
    assert!(parse_amount_fixed_decimal("12 34").is_err());
    assert_eq!(parse_amount_fixed_decimal("-.25").unwrap(), -2_500);
    assert_eq!(parse_amount_fixed_decimal("7.").unwrap(), 70_000);
}

#[test]
fn parse_ignores_leading_zeros_beyond_28_digits() {
    assert_eq!(parse_amount_fixed_decimal("000000000000000000000000000000001.5").unwrap(), 15_000);
    assert_eq!(parse_amount_fixed_decimal("-0000000000000000000000000000000.0001").unwrap(), -1);
}

#[test]
fn parse_rejects_doubled_points_and_misplaced_signs() {
    assert!(parse_amount_fixed_decimal("1..2").is_err());
    assert!(parse_amount_fixed_decimal("1-").is_err());
    assert!(parse_amount_fixed_decimal("-+1").is_err());
    assert!(parse_amount_fixed_decimal("-.").is_err());
}

#[test]
fn parse_stops_reading_at_the_28th_fractional_digit() {
    // rust_decimal reads one character past the 28th fractional digit, and an
    // underscore there counts as a zero digit.
    assert_eq!(parse_amount_fixed_decimal(".0000000000000000000000000001_x").unwrap(), 0);
}
