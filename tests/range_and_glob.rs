use hls_mirror::pattern::glob;
use hls_mirror::range::{parse_decimal, parse_range};

#[test]
fn test_glob_key() {
    assert!(glob("", ""));
    assert!(glob(".*", ".git"));
    assert!(glob("abc", "abc"));
    assert!(glob("a*c", "abc"));
    assert!(glob("a?c", "abc"));
    assert!(glob("a*c", "abbc"));
    assert!(glob("*c", "abc"));
    assert!(glob("a*", "abc"));
    assert!(glob("?c", "bc"));
    assert!(glob("a?", "ab"));
    assert!(!glob("abc", "adc"));
    assert!(!glob("abc", "abcd"));
    assert!(!glob("a?c", "abbc"));
    assert!(!glob("*.log", "log"));
    assert!(glob("*.abc-cba", "xyz.abc-cba"));
    assert!(glob("*.abc-cba", "123.xyz.abc-cba"));
    assert!(glob("*.log", ".log"));
    assert!(glob("*.log", "a.log"));
    assert!(glob("*/", "abc/"));
    assert!(!glob("*/", "abc"));
}

#[test]
fn test_parse_range() {
    assert_eq!(parse_range("bytes=0-499", 500), Some((0, 499)));
    assert_eq!(parse_range("bytes=0-", 500), Some((0, 499)));
    assert_eq!(parse_range("bytes=299-", 500), Some((299, 499)));
    assert_eq!(parse_range("bytes=-500", 500), Some((0, 499)));
    assert_eq!(parse_range("bytes=-300", 500), Some((200, 499)));
    assert_eq!(parse_range("bytes=500-", 500), None);
    assert_eq!(parse_range("bytes=-501", 500), None);
    assert_eq!(parse_range("bytes=0-500", 500), None);
}

#[test]
fn invalid_glob_pattern_matches_nothing() {
    assert!(!glob("a***", "abc"));
    assert!(!glob("[", "["));
}

#[test]
fn closed_range_is_returned_exactly() {
    assert_eq!(parse_range("bytes=10-20", 100), Some((10, 20)));
    assert_eq!(parse_range("bytes=007-007", 8), Some((7, 7)));
    assert_eq!(parse_range("bytes=0-0", 1), Some((0, 0)));
}

#[test]
fn suffix_range_gives_last_bytes() {
    assert_eq!(parse_range("bytes=-1", 10), Some((9, 9)));
    assert_eq!(parse_range("bytes=-10", 10), Some((0, 9)));
    assert_eq!(parse_range("bytes=-11", 10), None);
    assert_eq!(parse_range("bytes=-0", 10), None);
}

#[test]
fn open_range_past_end_is_empty() {
    assert_eq!(parse_range("bytes=10-", 10), None);
    assert_eq!(parse_range("bytes=11-", 10), None);
    assert_eq!(parse_range("bytes=9-", 10), Some((9, 9)));
}

#[test]
fn reversed_closed_range_is_refused() {
    assert_eq!(parse_range("bytes=5-3", 10), None);
}

#[test]
fn malformed_ranges_are_refused() {
    assert_eq!(parse_range("bytes=0-1,3-4", 10), None);
    assert_eq!(parse_range("items=0-1", 10), None);
    assert_eq!(parse_range("bytes0-1", 10), None);
    assert_eq!(parse_range("bytes=01", 10), None);
    assert_eq!(parse_range("bytes=-", 10), None);
    assert_eq!(parse_range("bytes=a-3", 10), None);
    assert_eq!(parse_range("bytes=1-b", 10), None);
    assert_eq!(parse_range("bytes=1-2-3", 10), None);
    assert_eq!(parse_range("bytes=0-", 0), None);
    assert_eq!(parse_range("bytes=-0", 0), None);
    assert_eq!(parse_range("", 10), None);
}

#[test]
fn large_sizes_and_overflow() {
    assert_eq!(
        parse_range("bytes=-18446744073709551615", u64::MAX),
        Some((0, u64::MAX - 1))
    );
    assert_eq!(parse_range("bytes=-18446744073709551616", u64::MAX), None);
    assert_eq!(parse_decimal("18446744073709551615"), Some(u64::MAX));
    assert_eq!(parse_decimal("18446744073709551616"), None);
    assert_eq!(parse_decimal("99999999999999999999x"), None);
    assert_eq!(parse_decimal("042"), Some(42));
    assert_eq!(parse_decimal(""), None);
    assert_eq!(parse_decimal("+4"), None);
}
