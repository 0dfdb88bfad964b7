use mithka_tdlib::format::{is_http_url, list_time, list_time_pattern, message_time, message_time_from};

#[test]
fn http_urls_reject_other_schemes_and_spaces() {
    assert!(is_http_url("https://example.com/mithka"));
    assert!(is_http_url("http://example.com"));
    assert!(is_http_url("HTTPS://example.com/a"));
    assert!(!is_http_url("https://example.com/a b"));
    assert!(!is_http_url("ftp://example.com"));
    assert!(!is_http_url("javascript:alert(1)"));
    assert!(!is_http_url("tg://resolve"));
    assert!(!is_http_url(""));
}

#[test]
fn list_time_is_a_clock_today_and_a_date_in_2023() {
    let today = list_time(chrono::Local::now().timestamp());
    assert_eq!(today.len(), 5);
    assert!(today.as_bytes()[2] == b':');

    let archived = list_time(1_700_000_000);
    assert!(archived.contains('-'), "a 2023 timestamp should use a numeric date, got {archived}");
    let full = message_time(1_700_000_000);
    assert!(full.contains(' ') && full.contains(':'), "{full}");
}

#[test]
fn a_bare_scheme_is_not_a_url() {
    assert!(!is_http_url("http://"));
    assert!(!is_http_url("https://"));
    assert!(is_http_url("http://a"));
}

#[test]
fn list_time_pattern_picks_clock_then_day_then_date() {
    assert_eq!(list_time_pattern((2024, 10), (2024, 10)), "%H:%M");
    assert_ne!(list_time_pattern((2024, 9), (2024, 10)), "%H:%M");
    assert_ne!(list_time_pattern((2023, 10), (2024, 10)), list_time_pattern((2024, 9), (2024, 10)));
}

#[test]
fn message_time_falls_back_to_the_number() {
    assert_eq!(message_time_from(42, None), "42");
    assert_eq!(message_time_from(42, Some("x".to_string())), "x");
}

#[test]
fn local_times_have_the_pattern_shapes() {
    let date = list_time(86_400 * 365);
    assert_eq!(date.len(), 10);
    assert!(date.starts_with("1970-12-") || date.starts_with("1971-01-"));
    assert_eq!(&date[4..5], "-");
    let stamp = message_time(86_400 * 365);
    assert_eq!(stamp.len(), 16);
    assert!(stamp.starts_with(&date));
    assert_eq!(&stamp[13..14], ":");
    assert_eq!(message_time(i64::MAX), i64::MAX.to_string());
    assert_eq!(list_time(i64::MAX), "");
}

#[test]
fn chrono_range_decides_whether_a_time_is_shown() {
    assert_eq!(list_time(8_210_266_876_800), "");
    assert_eq!(list_time(-8_334_601_228_801), "");
    assert_eq!(message_time(8_210_266_876_800), "8210266876800");
    assert!(!list_time(1_700_000_000).is_empty());
}
