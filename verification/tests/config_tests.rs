use flash_code::config::{parse_interval, parse_threshold_milli};

#[test]
fn interval_parses_digit_strings() {
    assert_eq!(parse_interval("3000"), Some(3000));
    assert_eq!(parse_interval("0"), Some(0));
    assert_eq!(parse_interval("007"), Some(7));
    assert_eq!(parse_interval("18446744073709551615"), Some(u64::MAX));
}

#[test]
fn interval_rejects_malformed_strings() {
    assert_eq!(parse_interval(""), None);
    assert_eq!(parse_interval("12a"), None);
    assert_eq!(parse_interval("-5"), None);
    assert_eq!(parse_interval("3.5"), None);
    assert_eq!(parse_interval(" 3000"), None);
    // One past u64::MAX overflows.
    assert_eq!(parse_interval("18446744073709551616"), None);
}

#[test]
fn threshold_parses_decimals_to_thousandths() {
    assert_eq!(parse_threshold_milli("0.050"), Some(50));
    assert_eq!(parse_threshold_milli("0.3"), Some(300));
    assert_eq!(parse_threshold_milli("0.25"), Some(250));
    assert_eq!(parse_threshold_milli("0"), Some(0));
    assert_eq!(parse_threshold_milli("1"), Some(1000));
    assert_eq!(parse_threshold_milli("1.0"), Some(1000));
    assert_eq!(parse_threshold_milli("1.000"), Some(1000));
    assert_eq!(parse_threshold_milli(".5"), Some(500));
    assert_eq!(parse_threshold_milli("0."), Some(0));
    assert_eq!(parse_threshold_milli("0.000"), Some(0));
}

#[test]
fn threshold_accepts_trailing_zero_fraction_digits() {
    // Digits beyond the third fraction place are fine while they are
    // zeros: the value is still exact in thousandths.
    assert_eq!(parse_threshold_milli("0.0500"), Some(50));
    assert_eq!(parse_threshold_milli("0.05000000"), Some(50));
    assert_eq!(parse_threshold_milli("1.000000"), Some(1000));
    assert_eq!(parse_threshold_milli(".5000"), Some(500));
    assert_eq!(parse_threshold_milli("0.0000"), Some(0));
    // A non-zero fourth digit is finer than thousandths: rejected.
    assert_eq!(parse_threshold_milli("0.0505"), None);
    assert_eq!(parse_threshold_milli("0.1239"), None);
    assert_eq!(parse_threshold_milli("1.0000001"), None);
}

#[test]
fn threshold_rejects_out_of_range_values() {
    assert_eq!(parse_threshold_milli("1.001"), None);
    assert_eq!(parse_threshold_milli("1.5"), None);
    assert_eq!(parse_threshold_milli("2"), None);
    assert_eq!(parse_threshold_milli("10"), None);
}

#[test]
fn threshold_rejects_malformed_strings() {
    assert_eq!(parse_threshold_milli(""), None);
    assert_eq!(parse_threshold_milli("."), None);
    assert_eq!(parse_threshold_milli("0..5"), None);
    assert_eq!(parse_threshold_milli("0.5.0"), None);
    assert_eq!(parse_threshold_milli("-0.5"), None);
    assert_eq!(parse_threshold_milli("0.5a"), None);
    assert_eq!(parse_threshold_milli("a.5"), None);
}
