//! Service settings, read from optional text values with fallbacks.
use vstd::prelude::*;

use crate::decimal::{
    all_digits, digits_value, is_digit, parse_bounded, parse_u64, parse_usize, unsigned_digits,
};

verus! {

/// Number of HTTP worker threads when the setting is absent or unreadable.
pub const DEFAULT_WORKERS: usize = 3;

/// Number of analyses that may run at once when the setting is absent or unreadable.
pub const DEFAULT_MAX_CONCURRENT_OCR: usize = 3;

/// Seconds an analysis may take when the setting is absent or unreadable.
pub const DEFAULT_OCR_TIMEOUT_SECS: u64 = 120;

/// The service's settings.
pub struct AppConfig {
    pub workers: usize,
    pub max_concurrent_ocr: usize,
    pub ocr_timeout_secs: u64,
}

/// The text of an optional setting.
pub open spec fn setting_text(value: Option<&str>) -> Option<Seq<char>> {
    match value {
        Some(s) => Some(s@),
        None => None,
    }
}

/// The number a setting gives: the unsigned decimal it writes where that fits
/// below `max`, and `default` where the setting is absent or does not.
pub open spec fn setting_number(value: Option<Seq<char>>, max: nat, default: nat) -> nat {
    match value {
        Some(text) => match parse_bounded(text, max) {
            Some(v) => v,
            None => default,
        },
        None => default,
    }
}

/// Reads an optional `usize` setting, falling back to `default`.
pub fn usize_setting(value: Option<&str>, default: usize) -> (n: usize)
    ensures
        n as nat == setting_number(setting_text(value), usize::MAX as nat, default as nat),
{
    match value {
        Some(text) => match parse_usize(text) {
            Some(v) => v,
            None => default,
        },
        None => default,
    }
}

/// Reads an optional `u64` setting, falling back to `default`.
pub fn u64_setting(value: Option<&str>, default: u64) -> (n: u64)
    ensures
        n as nat == setting_number(setting_text(value), u64::MAX as nat, default as nat),
{
    match value {
        Some(text) => match parse_u64(text) {
            Some(v) => v,
            None => default,
        },
        None => default,
    }
}

/// A setting takes the number its text writes wherever that number fits the
/// field, and its default exactly where the setting is absent or its text
/// writes no number that fits.
pub proof fn lemma_setting_is_parsed_number(value: Option<Seq<char>>, max: nat, default: nat)
    ensures
        forall|text: Seq<char>, v: nat|
            value == Some(text) && parse_bounded(text, max) == Some(v) ==> setting_number(
                value,
                max,
                default,
            ) == v,
        value is None ==> setting_number(value, max, default) == default,
        forall|text: Seq<char>|
            value == Some(text) && parse_bounded(text, max) is None ==> setting_number(
                value,
                max,
                default,
            ) == default,
{
}

/// A setting written as plain digits (no sign) whose value fits the field is
/// that value: the digits read as a decimal number.
pub proof fn lemma_digit_setting(text: Seq<char>, max: nat, default: nat)
    requires
        text.len() > 0,
        forall|i: int| 0 <= i < text.len() ==> '0' <= #[trigger] text[i] && text[i] <= '9',
        digits_value(text) <= max,
    ensures
        setting_number(Some(text), max, default) == digits_value(text),
{
    assert(is_digit(text[0]));
    assert(unsigned_digits(text) == text);
    assert(all_digits(text));
}

impl AppConfig {
    /// Builds the settings from the texts of the three settings, each absent
    /// where it is not set: a setting that does not write an unsigned number
    /// that fits its field takes its default.
    pub fn from_settings(
        workers: Option<&str>,
        max_concurrent_ocr: Option<&str>,
        ocr_timeout_secs: Option<&str>,
    ) -> (config: AppConfig)
        ensures
            config.workers as nat == setting_number(
                setting_text(workers),
                usize::MAX as nat,
                DEFAULT_WORKERS as nat,
            ),
            config.max_concurrent_ocr as nat == setting_number(
                setting_text(max_concurrent_ocr),
                usize::MAX as nat,
                DEFAULT_MAX_CONCURRENT_OCR as nat,
            ),
            config.ocr_timeout_secs as nat == setting_number(
                setting_text(ocr_timeout_secs),
                u64::MAX as nat,
                DEFAULT_OCR_TIMEOUT_SECS as nat,
            ),
    {
        AppConfig {
            workers: usize_setting(workers, DEFAULT_WORKERS),
            max_concurrent_ocr: usize_setting(max_concurrent_ocr, DEFAULT_MAX_CONCURRENT_OCR),
            ocr_timeout_secs: u64_setting(ocr_timeout_secs, DEFAULT_OCR_TIMEOUT_SECS),
        }
    }
}

} // verus!
