use kimi_companion::numeric::{format_i64, format_u64, parse_i64, parse_u64, parse_u64_str};
use kimi_companion::timestamp::{rfc3339_utc_to_ms, timestamp_fraction_too_long};

#[test]
fn epoch_origin_is_zero() {
    assert_eq!(rfc3339_utc_to_ms("1970-01-01T00:00:00Z"), Some(0));
}

#[test]
fn timestamp_with_millisecond_fraction() {
    assert_eq!(rfc3339_utc_to_ms("2024-03-15T12:34:56.789Z"), Some(1710506096789));
}

#[test]
fn timestamp_fraction_is_truncated_or_padded() {
    assert_eq!(rfc3339_utc_to_ms("2025-08-25T01:02:03.123456789Z"), Some(1756083723123));
    assert_eq!(rfc3339_utc_to_ms("2025-08-25T01:02:03.1Z"), Some(1756083723100));
    assert_eq!(rfc3339_utc_to_ms("2025-08-25T01:02:03.12Z"), Some(1756083723120));
}

#[test]
fn leap_day_and_before_epoch() {
    assert_eq!(rfc3339_utc_to_ms("2000-02-29T00:00:00Z"), Some(951782400000));
    assert_eq!(rfc3339_utc_to_ms("1969-12-31T23:59:59Z"), Some(-1000));
    assert_eq!(rfc3339_utc_to_ms("0001-01-01T00:00:00Z"), Some(-62135596800000));
    assert_eq!(rfc3339_utc_to_ms("-001-01-01T00:00:00Z"), Some(-62198755200000));
}

#[test]
fn day_past_month_end_runs_on() {
    assert_eq!(rfc3339_utc_to_ms("2023-02-31T00:00:00Z"), rfc3339_utc_to_ms("2023-03-03T00:00:00Z"));
    assert_eq!(rfc3339_utc_to_ms("2023-03-03T00:00:00Z"), Some(1677801600000));
}

#[test]
fn malformed_timestamps_are_rejected() {
    assert_eq!(rfc3339_utc_to_ms("2024-03-15T12:34:56"), None);
    assert_eq!(rfc3339_utc_to_ms("2024-03-15T12:34:56+08:00"), None);
    assert_eq!(rfc3339_utc_to_ms("2024-13-15T12:34:56Z"), None);
    assert_eq!(rfc3339_utc_to_ms("2024-00-15T12:34:56Z"), None);
    assert_eq!(rfc3339_utc_to_ms("2024-03-32T12:34:56Z"), None);
    assert_eq!(rfc3339_utc_to_ms("2024-03-15 12:34:56Z"), None);
    assert_eq!(rfc3339_utc_to_ms("2024-03-15T12:34:56.Z"), None);
    assert_eq!(rfc3339_utc_to_ms("2024-03-15T12:34:56.5ZZ"), None);
    assert_eq!(rfc3339_utc_to_ms("2024-03-15T12:34:5é"), None);
    assert_eq!(rfc3339_utc_to_ms(""), None);
}

#[test]
fn overlong_fraction_is_detected() {
    let long = format!("2024-03-15T12:34:56.{}1Z", "0".repeat(21));
    assert!(timestamp_fraction_too_long(&long));
    assert!(!timestamp_fraction_too_long("2024-03-15T12:34:56.123456789Z"));
    assert!(!timestamp_fraction_too_long("not a timestamp"));
}

#[test]
fn integers_parse_like_from_str() {
    assert_eq!(parse_i64(b"42"), Some(42));
    assert_eq!(parse_i64(b"+7"), Some(7));
    assert_eq!(parse_i64(b"-9223372036854775808"), Some(i64::MIN));
    assert_eq!(parse_i64(b"9223372036854775808"), None);
    assert_eq!(parse_i64(b"-"), None);
    assert_eq!(parse_i64(b""), None);
    assert_eq!(parse_i64(b"1a"), None);
    assert_eq!(parse_u64(b"18446744073709551615"), Some(u64::MAX));
    assert_eq!(parse_u64(b"18446744073709551616"), None);
    assert_eq!(parse_u64(b"-0"), None);
    assert_eq!(parse_u64_str("+12"), Some(12));
}

#[test]
fn integers_print_in_base_ten() {
    assert_eq!(format_u64(0), "0");
    assert_eq!(format_u64(1234567890), "1234567890");
    assert_eq!(format_i64(-42), "-42");
    assert_eq!(format_i64(i64::MIN), i64::MIN.to_string());
}

#[test]
fn offset_text_round_trips() {
    for n in [0u64, 9, 10, 4096, u64::MAX] {
        assert_eq!(parse_u64_str(&format_u64(n)), Some(n));
    }
}
