use logia_rs::theme::{Color, ColorScheme, Theme};

#[test]
fn schemes_produce_different_colors() {
    let default = Theme::from_scheme(&ColorScheme::Default);
    let high_contrast = Theme::from_scheme(&ColorScheme::HighContrast);
    assert!(
        default.border_focused != high_contrast.border_focused
            || default.highlight_bg != high_contrast.highlight_bg
            || default.header_bg != high_contrast.header_bg
            || default.log_error != high_contrast.log_error,
        "Default and HighContrast schemes must differ in at least one color"
    );
}

#[test]
fn scheme_cycle_returns_after_three_steps() {
    for s in [ColorScheme::Default, ColorScheme::HighContrast, ColorScheme::Dark] {
        assert_ne!(s.next(), s);
        assert_eq!(s.next().next().next(), s);
    }
    assert_eq!(ColorScheme::Default.next(), ColorScheme::HighContrast);
    assert_eq!(ColorScheme::HighContrast.next(), ColorScheme::Dark);
    assert_eq!(ColorScheme::Dark.next(), ColorScheme::Default);
}

#[test]
fn scheme_names() {
    assert_eq!(ColorScheme::Default.name(), "Default");
    assert_eq!(ColorScheme::HighContrast.name(), "HighContrast");
    assert_eq!(ColorScheme::Dark.name(), "Dark");
    assert_eq!(ColorScheme::default(), ColorScheme::Default);
}

#[test]
fn dark_scheme_uses_rgb_colours() {
    let dark = Theme::from_scheme(&ColorScheme::Dark);
    assert_eq!(dark.log_error, Color::Rgb(255, 90, 90));
    assert_eq!(dark.content_bg, Color::Rgb(20, 20, 30));
    let default = Theme::from_scheme(&ColorScheme::Default);
    assert_eq!(default.log_info, Color::LightGreen);
    assert_eq!(default.content_bg, Color::Reset);
}
