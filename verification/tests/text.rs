use cilium_monitor::clock::text_or_fallback;
use cilium_monitor::flow::Verdict;
use cilium_monitor::text::{chars_of, format_i64, format_u64, join_strings, repeat_str};

#[test]
fn decimal_numbers() {
    assert_eq!(format_u64(0), "0");
    assert_eq!(format_u64(42), "42");
    assert_eq!(format_u64(u64::MAX), "18446744073709551615");
    assert_eq!(format_i64(-7), "-7");
    assert_eq!(format_i64(1000), "1000");
    assert_eq!(format_i64(i64::MIN), "-9223372036854775808");
}

#[test]
fn repeating_and_joining() {
    assert_eq!(repeat_str("ab", 3), "ababab");
    assert_eq!(repeat_str("x", 0), "");
    assert_eq!(join_strings(&vec!["a".to_string(), "b".to_string(), "c".to_string()], ", "), "a, b, c");
    assert_eq!(join_strings(&vec!["only".to_string()], "\n"), "only");
    assert_eq!(join_strings(&vec![], "\n"), "");
}

#[test]
fn characters_in_order() {
    assert_eq!(chars_of("h\u{e9}!"), vec!['h', '\u{e9}', '!']);
}

#[test]
fn verdict_codes() {
    assert_eq!(Verdict::Forwarded.code(), 1);
    assert_eq!(Verdict::Dropped.code(), 2);
    assert_eq!(Verdict::Error.code(), 3);
    assert_eq!(Verdict::Audit.code(), 4);
}

#[test]
fn chrono_text_or_fallback() {
    assert_eq!(text_or_fallback(Some("2020-01-01 00:00:00".to_string()), "x".to_string()), "2020-01-01 00:00:00");
    assert_eq!(text_or_fallback(None, "1970-01-01 00:00:00".to_string()), "1970-01-01 00:00:00");
    assert_eq!(text_or_fallback(None, String::new()), "");
}
