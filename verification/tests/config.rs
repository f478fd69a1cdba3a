use la_taupe::config::{AppConfig, DEFAULT_MAX_CONCURRENT_OCR, DEFAULT_OCR_TIMEOUT_SECS, DEFAULT_WORKERS};
use la_taupe::decimal::{parse_u64, parse_usize};

#[test]
fn test_default_config() {
    let config = AppConfig::from_settings(None, None, None);
    assert_eq!(config.workers, 3);
    assert_eq!(config.max_concurrent_ocr, 3);
    assert_eq!(config.ocr_timeout_secs, 120);
}

#[test]
fn test_custom_config() {
    let config = AppConfig::from_settings(Some("5"), Some("2"), Some("60"));
    assert_eq!(config.workers, 5);
    assert_eq!(config.max_concurrent_ocr, 2);
    assert_eq!(config.ocr_timeout_secs, 60);
}

#[test]
fn test_invalid_values_use_defaults() {
    let config = AppConfig::from_settings(Some("not_a_number"), Some(""), Some("-1"));
    assert_eq!(config.workers, 3);
    assert_eq!(config.max_concurrent_ocr, 3);
    assert_eq!(config.ocr_timeout_secs, 120);
}

#[test]
fn defaults_are_the_documented_ones() {
    assert_eq!(DEFAULT_WORKERS, 3);
    assert_eq!(DEFAULT_MAX_CONCURRENT_OCR, 3);
    assert_eq!(DEFAULT_OCR_TIMEOUT_SECS, 120);
}

#[test]
fn plus_sign_and_leading_zeros_are_read() {
    assert_eq!(parse_u64("+5"), Some(5));
    assert_eq!(parse_u64("007"), Some(7));
    assert_eq!(parse_u64("0"), Some(0));
    assert_eq!(parse_usize("12345"), Some(12345));
}

#[test]
fn malformed_numbers_are_refused() {
    assert_eq!(parse_u64(""), None);
    assert_eq!(parse_u64("+"), None);
    assert_eq!(parse_u64("-"), None);
    assert_eq!(parse_u64("-1"), None);
    assert_eq!(parse_u64("++1"), None);
    assert_eq!(parse_u64(" 1"), None);
    assert_eq!(parse_u64("1 "), None);
    assert_eq!(parse_u64("1_000"), None);
    assert_eq!(parse_u64("٣"), None);
}

#[test]
fn numbers_at_the_edge_of_the_range() {
    assert_eq!(parse_u64("18446744073709551615"), Some(u64::MAX));
    assert_eq!(parse_u64("18446744073709551616"), None);
    assert_eq!(parse_u64("99999999999999999999x"), None);
    assert_eq!(parse_usize(&usize::MAX.to_string()), Some(usize::MAX));
}

#[test]
fn parsing_agrees_with_std() {
    for text in ["0", "+0", "42", "+", "", "-0", "abc", "4a", "18446744073709551615", "18446744073709551616", "00000000000000000000001"] {
        assert_eq!(parse_u64(text), text.parse::<u64>().ok(), "{}", text);
    }
}

#[test]
fn overflowing_setting_takes_the_default() {
    let config = AppConfig::from_settings(None, None, Some("99999999999999999999"));
    assert_eq!(config.ocr_timeout_secs, 120);
}
