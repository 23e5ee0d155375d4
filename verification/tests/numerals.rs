use sextant::decimal::{parse_u32, u32_to_decimal};

#[test]
fn formats_zero() {
    assert_eq!(u32_to_decimal(0), "0");
}

#[test]
fn formats_single_digit() {
    assert_eq!(u32_to_decimal(7), "7");
}

#[test]
fn formats_round_number() {
    assert_eq!(u32_to_decimal(1000), "1000");
}

#[test]
fn formats_largest_value() {
    assert_eq!(u32_to_decimal(4294967295), "4294967295");
}

#[test]
fn parses_plain_digits() {
    assert_eq!(parse_u32("42"), Some(42));
}

#[test]
fn parses_leading_plus() {
    assert_eq!(parse_u32("+42"), Some(42));
}

#[test]
fn parses_leading_zeros() {
    assert_eq!(parse_u32("0042"), Some(42));
}

#[test]
fn parses_largest_value() {
    assert_eq!(parse_u32("4294967295"), Some(4294967295));
}

#[test]
fn rejects_value_out_of_range() {
    assert_eq!(parse_u32("4294967296"), None);
    assert_eq!(parse_u32("99999999999999999999"), None);
}

#[test]
fn rejects_empty_and_bare_sign() {
    assert_eq!(parse_u32(""), None);
    assert_eq!(parse_u32("+"), None);
}

#[test]
fn rejects_non_digits() {
    assert_eq!(parse_u32("abc"), None);
    assert_eq!(parse_u32("4a2"), None);
    assert_eq!(parse_u32(" 42"), None);
    assert_eq!(parse_u32("-1"), None);
    assert_eq!(parse_u32("4 2"), None);
}

#[test]
fn round_trips_through_text() {
    for value in [0u32, 1, 9, 10, 99, 12345, 4294967295] {
        assert_eq!(parse_u32(&u32_to_decimal(value)), Some(value));
    }
}
