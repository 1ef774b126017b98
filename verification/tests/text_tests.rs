use scrobble_core::text::human_readable_duration;
use scrobble_core::text::parse_u64;
use scrobble_core::text::replace_html_symbols;
use scrobble_core::text::slice_tg_string;
use scrobble_core::text::str_contains;
use scrobble_core::text::truncate_str;
use scrobble_core::text::u64_to_dec_string;

#[test]
fn parse_u64_accepts_plain_decimals() {
    assert_eq!(parse_u64("42"), Some(42));
    assert_eq!(parse_u64("0"), Some(0));
    assert_eq!(parse_u64("+7"), Some(7));
    assert_eq!(parse_u64("18446744073709551615"), Some(u64::MAX));
}

#[test]
fn parse_u64_rejects_garbage() {
    assert_eq!(parse_u64(""), None);
    assert_eq!(parse_u64("+"), None);
    assert_eq!(parse_u64("12a"), None);
    assert_eq!(parse_u64("-3"), None);
    assert_eq!(parse_u64("18446744073709551616"), None);
    assert_eq!(parse_u64(" 5"), None);
}

#[test]
fn parse_u64_agrees_with_std() {
    for s in ["42", "", "+7", "007", "99999999999999999999", "1x"] {
        assert_eq!(parse_u64(s), s.parse::<u64>().ok(), "on {:?}", s);
    }
}

#[test]
fn decimal_rendering() {
    assert_eq!(u64_to_dec_string(0), "0");
    assert_eq!(u64_to_dec_string(7), "7");
    assert_eq!(u64_to_dec_string(1234), "1234");
    assert_eq!(u64_to_dec_string(u64::MAX), "18446744073709551615");
}

#[test]
fn duration_formats_minutes_and_padded_seconds() {
    assert_eq!(human_readable_duration(0), "0:00");
    assert_eq!(human_readable_duration(245000), "4:05");
    assert_eq!(human_readable_duration(61000), "1:01");
    assert_eq!(human_readable_duration(59999), "0:59");
    assert_eq!(human_readable_duration(600000), "10:00");
}

#[test]
fn html_escaping() {
    assert_eq!(replace_html_symbols("a<b&c>d"), "a&lt;b&amp;c&gt;d");
    assert_eq!(replace_html_symbols("plain"), "plain");
    assert_eq!(replace_html_symbols(""), "");
    assert_eq!(replace_html_symbols("&&"), "&amp;&amp;");
}

#[test]
fn truncation_by_characters() {
    assert_eq!(truncate_str("alltime", 4), "allt");
    assert_eq!(truncate_str("al", 4), "al");
    assert_eq!(truncate_str("", 4), "");
    assert_eq!(truncate_str("héllo", 2), "hé");
}

#[test]
fn substring_search() {
    assert!(str_contains("no-cache, must-revalidate", "no-cache"));
    assert!(!str_contains("max-stale=300", "no-cache"));
    assert!(str_contains("abc", ""));
    assert!(!str_contains("ab", "abc"));
}

#[test]
fn utf16_slicing_plain_ascii() {
    assert_eq!(slice_tg_string("hello".to_string(), 0, 2), Some("he".to_string()));
    assert_eq!(slice_tg_string("hello".to_string(), 1, 4), Some("ell".to_string()));
    assert_eq!(slice_tg_string("hello".to_string(), 2, 2), Some("".to_string()));
}

#[test]
fn utf16_slicing_bounds() {
    // The end offset must land strictly inside the text.
    assert_eq!(slice_tg_string("hello".to_string(), 0, 5), None);
    assert_eq!(slice_tg_string("hello".to_string(), 3, 1), None);
}

#[test]
fn utf16_slicing_counts_surrogate_pairs() {
    // The emoji takes two UTF-16 units.
    assert_eq!(slice_tg_string("a\u{1F600}b".to_string(), 1, 3), Some("\u{1F600}".to_string()));
    // An offset inside the pair matches no character boundary.
    assert_eq!(slice_tg_string("a\u{1F600}b".to_string(), 2, 3), None);
}
