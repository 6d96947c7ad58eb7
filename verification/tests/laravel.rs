use logia_rs::laravel::{
    parse_laravel_line, parse_with, style_laravel_line, LaravelFields, LaravelMatcher, LARAVEL_PATTERN,
};
use logia_rs::theme::{Color, ColorScheme, Theme};

#[test]
fn laravel_line_is_split_into_coloured_parts() {
    let theme = Theme::from_scheme(&ColorScheme::Default);
    let spans = parse_laravel_line("[2024-04-02 12:00:00] local.INFO: Some message here", &theme);
    assert_eq!(spans.len(), 4);
    assert_eq!(spans[0].text, "[2024-04-02 12:00:00] ");
    assert_eq!(spans[0].fg, Some(theme.log_date));
    assert_eq!(spans[1].text, "local.");
    assert_eq!(spans[1].fg, Some(theme.log_env));
    assert_eq!(spans[2].text, "INFO: ");
    assert_eq!(spans[2].fg, Some(theme.log_info));
    assert!(spans[2].bold);
    assert_eq!(spans[3].text, "Some message here");
    assert_eq!(spans[3].fg, None);
    assert!(!spans[3].bold);
}

#[test]
fn other_lines_are_one_plain_span() {
    let theme = Theme::from_scheme(&ColorScheme::Dark);
    for line in ["plain text", "[2024] local.info: lower-case level", "[] local.INFO: x", ""] {
        let spans = parse_laravel_line(line, &theme);
        assert_eq!(spans.len(), 1);
        assert_eq!(spans[0].text, line);
        assert_eq!(spans[0].fg, None);
        assert!(!spans[0].bold);
    }
}

#[test]
fn level_colours() {
    let theme = Theme::from_scheme(&ColorScheme::HighContrast);
    let level = |l: &str| parse_laravel_line(&format!("[d] prod.{}: m", l), &theme)[2].fg;
    assert_eq!(level("WARNING"), Some(theme.log_warn));
    assert_eq!(level("ERROR"), Some(theme.log_error));
    assert_eq!(level("CRITICAL"), Some(theme.log_error));
    assert_eq!(level("EMERGENCY"), Some(theme.log_error));
    assert_eq!(level("DEBUG"), Some(theme.log_debug));
    assert_eq!(level("NOTICE"), Some(theme.log_default));
}

#[test]
fn message_may_be_empty_and_date_may_hold_spaces() {
    let theme = Theme::from_scheme(&ColorScheme::Default);
    let spans = parse_laravel_line("[a b c] env_1.ERROR: ", &theme);
    assert_eq!(spans.len(), 4);
    assert_eq!(spans[0].text, "[a b c] ");
    assert_eq!(spans[1].text, "env_1.");
    assert_eq!(spans[3].text, "");
    assert_eq!(spans[2].fg, Some(Color::LightRed));
}

#[test]
fn styling_given_fields() {
    let theme = Theme::from_scheme(&ColorScheme::Default);
    let fields = LaravelFields {
        date: "D".to_string(),
        env: "E".to_string(),
        level: "X".to_string(),
        msg: "M".to_string(),
    };
    let spans = style_laravel_line("ignored", Some(fields), &theme);
    let texts: Vec<&str> = spans.iter().map(|s| s.text.as_str()).collect();
    assert_eq!(texts, vec!["[D] ", "E.", "X: ", "M"]);
    assert_eq!(spans[2].fg, Some(theme.log_default));
    let plain = style_laravel_line("raw", None, &theme);
    assert_eq!(plain.len(), 1);
    assert_eq!(plain[0].text, "raw");
    assert!(LARAVEL_PATTERN.starts_with("^\\["));
}

#[test]
fn one_compiled_matcher_serves_many_lines() {
    let theme = Theme::from_scheme(&ColorScheme::Dark);
    let matcher = LaravelMatcher::new();
    let a = parse_with(&matcher, "[t] app.DEBUG: one", &theme);
    let b = parse_with(&matcher, "not a laravel line", &theme);
    let c = parse_with(&matcher, "[t] app.INFO: two\nthree", &theme);
    assert_eq!(a.len(), 4);
    assert_eq!(a[2].fg, Some(theme.log_debug));
    assert_eq!(b.len(), 1);
    assert_eq!(c.len(), 1);
    assert_eq!(c[0].text, "[t] app.INFO: two\nthree");
}

#[test]
fn spans_join_back_to_the_line() {
    let theme = Theme::from_scheme(&ColorScheme::Default);
    for line in [
        "[2024-04-02 12:00:00] local.INFO: Some message here",
        "[x] prod.WARNING: ",
        "no brackets here",
        "[a] b.c: lower-case level",
        "",
    ] {
        let joined: String = parse_laravel_line(line, &theme).iter().map(|s| s.text.as_str()).collect();
        assert_eq!(joined, line);
    }
}
