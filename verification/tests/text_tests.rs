use daily_planner::text::{decimal, has_prefix, is_blank, is_whitespace, join, lines, text_before, trim};

#[test]
fn trim_removes_unicode_whitespace() {
    assert_eq!(trim("  a b \t\n"), "a b");
    assert_eq!(trim("\u{3000}x\u{a0}"), "x");
    assert_eq!(trim("   "), "");
    assert_eq!(trim(""), "");
    assert_eq!(trim(&trim(" z ")), "z");
    assert!(is_blank(" \r\n\u{2003}"));
    assert!(!is_blank(" . "));
    assert!(is_whitespace('\u{85}'));
    assert!(!is_whitespace('\u{200b}'));
}

#[test]
fn join_and_decimal() {
    let items = vec!["a".to_string(), "b".to_string(), "c".to_string()];
    assert_eq!(join(&items, ", "), "a, b, c");
    assert_eq!(join(&Vec::new(), ", "), "");
    assert_eq!(decimal(0), "0");
    assert_eq!(decimal(33), "33");
    assert_eq!(decimal(1234567890), "1234567890");
}

#[test]
fn lines_match_std() {
    for text in ["a\nb", "a\r\nb\n", "", "\n", "x\r", "a\r\r\nb", "\n\nc"] {
        let expected: Vec<String> = text.lines().map(|l| l.to_string()).collect();
        assert_eq!(lines(text), expected, "{:?}", text);
    }
}

#[test]
fn string_order_and_prefix() {
    assert!(text_before("2026-05-14", "2026-05-15"));
    assert!(!text_before("2026-05-15", "2026-05-15"));
    assert!(text_before("abc", "abcd"));
    assert!(!text_before("b", "abc"));
    assert!(has_prefix("OnCalendar=x", "OnCalendar="));
    assert!(!has_prefix("On", "OnCalendar="));
}
