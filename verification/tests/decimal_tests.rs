use asteria::decimal::{decimal_to_i64, format_decimal, is_plain_decimal};

#[test]
fn plain_decimals_are_recognised() {
    assert!(is_plain_decimal("0"));
    assert!(is_plain_decimal("42"));
    assert!(is_plain_decimal("-42"));
    assert!(is_plain_decimal("12.5"));
    assert!(is_plain_decimal("-0.5"));
    assert!(is_plain_decimal("0007"));
    assert!(is_plain_decimal("123456789012345678901234567890.000000000000000000001"));
}

#[test]
fn other_texts_are_not_plain_decimals() {
    assert!(!is_plain_decimal(""));
    assert!(!is_plain_decimal("-"));
    assert!(!is_plain_decimal("."));
    assert!(!is_plain_decimal("5."));
    assert!(!is_plain_decimal(".5"));
    assert!(!is_plain_decimal("+5"));
    assert!(!is_plain_decimal("1e5"));
    assert!(!is_plain_decimal("1E+5"));
    assert!(!is_plain_decimal("1.2.3"));
    assert!(!is_plain_decimal("12a"));
    assert!(!is_plain_decimal(" 12"));
    assert!(!is_plain_decimal("1_000"));
    assert!(!is_plain_decimal("--1"));
    assert!(!is_plain_decimal("١٢"));
}

#[test]
fn truncation_cuts_the_fraction_off() {
    assert_eq!(decimal_to_i64("12.5"), Some(12));
    assert_eq!(decimal_to_i64("12.999999"), Some(12));
    assert_eq!(decimal_to_i64("0.75"), Some(0));
    assert_eq!(decimal_to_i64("1500"), Some(1500));
    assert_eq!(decimal_to_i64("0"), Some(0));
    assert_eq!(decimal_to_i64("000123.4"), Some(123));
}

#[test]
fn truncation_rounds_toward_zero() {
    assert_eq!(decimal_to_i64("-12.5"), Some(-12));
    assert_eq!(decimal_to_i64("-0.5"), Some(0));
    assert_eq!(decimal_to_i64("-0"), Some(0));
    assert_eq!(decimal_to_i64("-7"), Some(-7));
}

#[test]
fn truncation_at_the_limits_of_i64() {
    assert_eq!(decimal_to_i64("9223372036854775807"), Some(i64::MAX));
    assert_eq!(decimal_to_i64("9223372036854775807.999"), Some(i64::MAX));
    assert_eq!(decimal_to_i64("-9223372036854775808"), Some(i64::MIN));
    assert_eq!(decimal_to_i64("-9223372036854775808.9"), Some(i64::MIN));
    assert_eq!(decimal_to_i64("9223372036854775808"), None);
    assert_eq!(decimal_to_i64("-9223372036854775809"), None);
    assert_eq!(decimal_to_i64("123456789012345678901234567890"), None);
}

#[test]
fn truncation_refuses_what_is_no_plain_decimal() {
    assert_eq!(decimal_to_i64(""), None);
    assert_eq!(decimal_to_i64("abc"), None);
    assert_eq!(decimal_to_i64("1e3"), None);
    assert_eq!(decimal_to_i64("12."), None);
    assert_eq!(decimal_to_i64("+12"), None);
}

#[test]
fn truncation_does_not_hand_its_argument_back() {
    // The text "77.7" is neither the number 77 nor its text.
    let r = decimal_to_i64("77.7");
    assert_eq!(r, Some(77));
    assert_ne!(r.map(|v| v.to_string()), Some("77.7".to_string()));
}

#[test]
fn numbers_are_written_in_base_ten() {
    assert_eq!(format_decimal(0), "0");
    assert_eq!(format_decimal(7), "7");
    assert_eq!(format_decimal(10), "10");
    assert_eq!(format_decimal(1971), "1971");
    assert_eq!(format_decimal(u64::MAX), "18446744073709551615");
}

#[test]
fn written_numbers_read_back() {
    for n in [0u64, 1, 9, 10, 99, 100, 12345, 9223372036854775807] {
        let text = format_decimal(n);
        assert!(is_plain_decimal(&text));
        assert_eq!(decimal_to_i64(&text), Some(n as i64));
    }
}
