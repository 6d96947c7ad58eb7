use logia_rs::text::{
    decimal_string, lines_of, parse_u16, text_contains, text_eq, text_starts_with,
    trim_text, zero_padded_chars,
};

#[test]
fn parses_ports() {
    assert_eq!(parse_u16("22"), Some(22));
    assert_eq!(parse_u16("65535"), Some(65535));
    assert_eq!(parse_u16("0"), Some(0));
    assert_eq!(parse_u16("65536"), None);
    assert_eq!(parse_u16(""), None);
    assert_eq!(parse_u16("2a"), None);
    assert_eq!(parse_u16("+22"), Some(22));
    assert_eq!(parse_u16("-1"), None);
}

#[test]
fn splits_lines_like_str_lines() {
    assert_eq!(lines_of("a\nb\r\nc"), vec!["a", "b", "c"]);
    assert_eq!(lines_of("a\n"), vec!["a"]);
    assert_eq!(lines_of(""), Vec::<String>::new());
    assert_eq!(lines_of("\n\n"), vec!["", ""]);
    assert_eq!(lines_of("x\r"), vec!["x\r"]);
}

#[test]
fn trims_unicode_whitespace() {
    assert_eq!(trim_text("  /var/log \t\n"), "/var/log");
    assert_eq!(trim_text("\u{3000}x\u{a0}"), "x");
    assert_eq!(trim_text("   "), "");
    assert_eq!(trim_text("a b"), "a b");
}

#[test]
fn substring_and_prefix_tests() {
    assert!(text_contains("hello world", "lo w"));
    assert!(text_contains("abc", ""));
    assert!(!text_contains("abc", "abcd"));
    assert!(text_starts_with("~/keys", "~/"));
    assert!(!text_starts_with("~", "~/"));
}

#[test]
fn decimal_text_and_padding() {
    assert_eq!(decimal_string(0), "0");
    assert_eq!(decimal_string(500), "500");
    assert_eq!(decimal_string(18446744073709551615), "18446744073709551615");
    assert_eq!(zero_padded_chars(7, 2), vec!['0', '7']);
    assert_eq!(zero_padded_chars(2024, 4), vec!['2', '0', '2', '4']);
    assert_eq!(zero_padded_chars(12345, 2), vec!['1', '2', '3', '4', '5']);
}

#[test]
fn compares_texts_exactly() {
    assert!(text_eq("INFO", "INFO"));
    assert!(!text_eq("INFO", "info"));
}
