use qtts::decimal::{format_milli, parse_milli};

#[test]
fn whole_numbers_are_read() {
    assert_eq!(parse_milli("1"), Some(1000));
    assert_eq!(parse_milli("0"), Some(0));
    assert_eq!(parse_milli("2"), Some(2000));
    assert_eq!(parse_milli("007"), Some(7000));
    assert_eq!(parse_milli("123456"), Some(123_456_000));
}

#[test]
fn fractions_are_read() {
    assert_eq!(parse_milli("0.75"), Some(750));
    assert_eq!(parse_milli("1.5"), Some(1500));
    assert_eq!(parse_milli("0.005"), Some(5));
    assert_eq!(parse_milli("0.17"), Some(170));
    assert_eq!(parse_milli("1.97"), Some(1970));
    assert_eq!(parse_milli("1.05"), Some(1050));
    assert_eq!(parse_milli("12.345"), Some(12345));
}

#[test]
fn places_behind_the_third_are_dropped() {
    assert_eq!(parse_milli("1.9999"), Some(1999));
    assert_eq!(parse_milli("0.30000000000000004"), Some(300));
    assert_eq!(parse_milli("0.0009"), Some(0));
    assert_eq!(parse_milli("-0.0009"), Some(0));
    assert_eq!(parse_milli("1.0499999"), Some(1049));
}

#[test]
fn signs_are_read() {
    assert_eq!(parse_milli("-0.3"), Some(-300));
    assert_eq!(parse_milli("+1.4"), Some(1400));
    assert_eq!(parse_milli("-2"), Some(-2000));
    assert_eq!(parse_milli("-0"), Some(0));
}

#[test]
fn a_point_needs_a_digit_on_one_side_only() {
    assert_eq!(parse_milli(".5"), Some(500));
    assert_eq!(parse_milli("5."), Some(5000));
    assert_eq!(parse_milli("-.25"), Some(-250));
    assert_eq!(parse_milli("."), None);
    assert_eq!(parse_milli("-."), None);
}

#[test]
fn what_is_no_decimal_is_refused() {
    assert_eq!(parse_milli(""), None);
    assert_eq!(parse_milli("-"), None);
    assert_eq!(parse_milli("+"), None);
    assert_eq!(parse_milli("abc"), None);
    assert_eq!(parse_milli("1e3"), None);
    assert_eq!(parse_milli("1.2.3"), None);
    assert_eq!(parse_milli("1,5"), None);
    assert_eq!(parse_milli(" 1"), None);
    assert_eq!(parse_milli("1 "), None);
    assert_eq!(parse_milli("--1"), None);
    assert_eq!(parse_milli("1-"), None);
    assert_eq!(parse_milli("1.5x"), None);
    assert_eq!(parse_milli("inf"), None);
    assert_eq!(parse_milli("NaN"), None);
    assert_eq!(parse_milli("１"), None);
    assert_eq!(parse_milli("1.٥"), None);
}

#[test]
fn values_beyond_the_range_are_limited() {
    assert_eq!(parse_milli("9223372036854775.807"), Some(i64::MAX));
    assert_eq!(parse_milli("9223372036854775.808"), Some(i64::MAX));
    assert_eq!(parse_milli("9223372036854775.806"), Some(i64::MAX - 1));
    assert_eq!(parse_milli("-9223372036854775.808"), Some(i64::MIN));
    assert_eq!(parse_milli("-9223372036854775.809"), Some(i64::MIN));
    assert_eq!(parse_milli("-9223372036854775.807"), Some(i64::MIN + 1));
    assert_eq!(parse_milli("10000000000000000"), Some(i64::MAX));
    assert_eq!(parse_milli("99999999999999999999999999999999999999.5"), Some(i64::MAX));
    assert_eq!(parse_milli("-99999999999999999999999999999999999999.5"), Some(i64::MIN));
    assert_eq!(parse_milli("9999999999999999.999"), Some(i64::MAX));
}

#[test]
fn thousandths_are_written_as_short_as_possible() {
    assert_eq!(format_milli(1000), "1");
    assert_eq!(format_milli(0), "0");
    assert_eq!(format_milli(750), "0.75");
    assert_eq!(format_milli(1500), "1.5");
    assert_eq!(format_milli(200), "0.2");
    assert_eq!(format_milli(2000), "2");
    assert_eq!(format_milli(5), "0.005");
    assert_eq!(format_milli(50), "0.05");
    assert_eq!(format_milli(1005), "1.005");
    assert_eq!(format_milli(12345), "12.345");
    assert_eq!(format_milli(120_000), "120");
}

#[test]
fn negative_thousandths_are_written_with_a_sign() {
    assert_eq!(format_milli(-5), "-0.005");
    assert_eq!(format_milli(-300), "-0.3");
    assert_eq!(format_milli(-1000), "-1");
    assert_eq!(format_milli(i64::MIN), "-9223372036854775.808");
    assert_eq!(format_milli(i64::MAX), "9223372036854775.807");
}

#[test]
fn what_is_written_is_read_back() {
    let mut value: i64 = -3000;
    while value <= 3000 {
        assert_eq!(parse_milli(&format_milli(value)), Some(value));
        value += 1;
    }
    for value in [i64::MIN, i64::MIN + 1, -1_000_000_007, 999_999_999_999, i64::MAX - 1, i64::MAX] {
        assert_eq!(parse_milli(&format_milli(value)), Some(value));
    }
}
