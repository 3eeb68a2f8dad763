use vwap_feed::decimal::parse_decimal;
use vwap_feed::trade::{AMOUNT_MAX, AMOUNT_UNIT};

#[test]
fn whole_numbers_scale_to_units() {
    assert_eq!(parse_decimal("0"), Some(0));
    assert_eq!(parse_decimal("1"), Some(AMOUNT_UNIT));
    assert_eq!(parse_decimal("100"), Some(100 * AMOUNT_UNIT));
    assert_eq!(parse_decimal("007"), Some(7 * AMOUNT_UNIT));
}

#[test]
fn fractions_scale_exactly() {
    assert_eq!(parse_decimal("10.5"), Some(1_050_000_000));
    assert_eq!(parse_decimal("0.00000001"), Some(1));
    assert_eq!(parse_decimal("0.00"), Some(0));
    assert_eq!(parse_decimal("29123.45"), Some(2_912_345_000_000));
    assert_eq!(parse_decimal("0.00262556"), Some(262_556));
}

#[test]
fn malformed_strings_fail_to_parse() {
    assert_eq!(parse_decimal(""), None);
    assert_eq!(parse_decimal("."), None);
    assert_eq!(parse_decimal("1."), None);
    assert_eq!(parse_decimal(".5"), None);
    assert_eq!(parse_decimal("1..2"), None);
    assert_eq!(parse_decimal("12a"), None);
    assert_eq!(parse_decimal("-3"), None);
    assert_eq!(parse_decimal("1e5"), None);
    assert_eq!(parse_decimal(" 1"), None);
}

#[test]
fn more_than_eight_fraction_digits_fail() {
    assert_eq!(parse_decimal("1.123456789"), None);
    assert_eq!(parse_decimal("1.12345678"), Some(112_345_678));
}

#[test]
fn amounts_beyond_the_representable_range_fail() {
    // 10_000_000 whole is exactly the largest representable amount.
    assert_eq!(parse_decimal("10000000"), Some(AMOUNT_MAX));
    assert_eq!(parse_decimal("10000001"), None);
    assert_eq!(parse_decimal("10000000.00000001"), None);
    assert_eq!(parse_decimal("99999999999999999999"), None);
}
