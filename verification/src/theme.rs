use vstd::prelude::*;

verus! {

/// The colour schemes the browser can cycle through.
#[derive(Debug, Clone, Copy, PartialEq, Eq, Structural)]
pub enum ColorScheme {
    Default,
    HighContrast,
    Dark,
}

/// The scheme that follows `s` in the cycle Default, HighContrast, Dark.
pub open spec fn next_scheme(s: ColorScheme) -> ColorScheme {
    match s {
        ColorScheme::Default => ColorScheme::HighContrast,
        ColorScheme::HighContrast => ColorScheme::Dark,
        ColorScheme::Dark => ColorScheme::Default,
    }
}

/// The display name of a scheme.
pub open spec fn scheme_name(s: ColorScheme) -> Seq<char> {
    match s {
        ColorScheme::Default => "Default"@,
        ColorScheme::HighContrast => "HighContrast"@,
        ColorScheme::Dark => "Dark"@,
    }
}

impl ColorScheme {
    pub fn next(&self) -> (r: ColorScheme)
        ensures
            r == next_scheme(*self),
    {
        match self {
            ColorScheme::Default => ColorScheme::HighContrast,
            ColorScheme::HighContrast => ColorScheme::Dark,
            ColorScheme::Dark => ColorScheme::Default,
        }
    }

    pub fn name(&self) -> (r: &'static str)
        ensures
            r@ == scheme_name(*self),
    {
        match self {
            ColorScheme::Default => "Default",
            ColorScheme::HighContrast => "HighContrast",
            ColorScheme::Dark => "Dark",
        }
    }
}

impl Default for ColorScheme {
    fn default() -> (r: ColorScheme)
        ensures
            r == ColorScheme::Default,
    {
        ColorScheme::Default
    }
}

/// Cycling the scheme three times comes back to where it started, and no
/// single step stays on the same scheme.
pub proof fn lemma_next_cycles(s: ColorScheme)
    ensures
        next_scheme(next_scheme(next_scheme(s))) == s,
        next_scheme(s) != s,
{
}

/// A terminal colour: a named palette colour, the terminal's own default
/// (`Reset`), or an RGB triple.
#[derive(Debug, Clone, Copy, PartialEq, Eq, Structural)]
pub enum Color {
    Reset,
    Black,
    Red,
    Green,
    Yellow,
    Blue,
    Cyan,
    Gray,
    DarkGray,
    LightRed,
    LightGreen,
    LightYellow,
    LightBlue,
    LightCyan,
    White,
    Rgb(u8, u8, u8),
}

/// Every colour the interface uses, for one scheme.
#[derive(Debug, Clone, Copy)]
pub struct Theme {
    pub border_focused: Color,
    pub border_normal: Color,
    pub border_dim: Color,
    pub highlight_fg: Color,
    pub highlight_bg: Color,
    pub item_local: Color,
    pub item_normal: Color,
    pub header_fg: Color,
    pub header_bg: Color,
    pub footer_fg: Color,
    pub footer_bg: Color,
    pub footer_text: Color,
    pub welcome_title: Color,
    pub welcome_feature_heading: Color,
    pub welcome_how_heading: Color,
    pub log_info: Color,
    pub log_warn: Color,
    pub log_error: Color,
    pub log_debug: Color,
    pub log_env: Color,
    pub log_date: Color,
    pub log_default: Color,
    pub content_bg: Color,
}

/// The colour table of each scheme.
pub open spec fn scheme_theme(s: ColorScheme) -> Theme {
    match s {
        ColorScheme::Default => Theme {
            border_focused: Color::LightBlue,
            border_normal: Color::Gray,
            border_dim: Color::DarkGray,
            highlight_fg: Color::Black,
            highlight_bg: Color::LightCyan,
            item_local: Color::Yellow,
            item_normal: Color::White,
            header_fg: Color::Cyan,
            header_bg: Color::Reset,
            footer_fg: Color::Gray,
            footer_bg: Color::Reset,
            footer_text: Color::Gray,
            welcome_title: Color::LightCyan,
            welcome_feature_heading: Color::LightYellow,
            welcome_how_heading: Color::LightGreen,
            log_info: Color::LightGreen,
            log_warn: Color::LightYellow,
            log_error: Color::LightRed,
            log_debug: Color::LightCyan,
            log_env: Color::LightBlue,
            log_date: Color::DarkGray,
            log_default: Color::White,
            content_bg: Color::Reset,
        },
        ColorScheme::HighContrast => Theme {
            border_focused: Color::Yellow,
            border_normal: Color::White,
            border_dim: Color::Gray,
            highlight_fg: Color::Black,
            highlight_bg: Color::Yellow,
            item_local: Color::Cyan,
            item_normal: Color::White,
            header_fg: Color::White,
            header_bg: Color::Blue,
            footer_fg: Color::White,
            footer_bg: Color::Blue,
            footer_text: Color::White,
            welcome_title: Color::Cyan,
            welcome_feature_heading: Color::Yellow,
            welcome_how_heading: Color::Green,
            log_info: Color::Green,
            log_warn: Color::Yellow,
            log_error: Color::Red,
            log_debug: Color::Cyan,
            log_env: Color::Blue,
            log_date: Color::Gray,
            log_default: Color::White,
            content_bg: Color::Reset,
        },
        ColorScheme::Dark => Theme {
            border_focused: Color::Rgb(100, 180, 255),
            border_normal: Color::Rgb(100, 100, 120),
            border_dim: Color::Rgb(60, 60, 70),
            highlight_fg: Color::Rgb(20, 20, 30),
            highlight_bg: Color::Rgb(100, 180, 255),
            item_local: Color::Rgb(255, 200, 80),
            item_normal: Color::Rgb(200, 200, 210),
            header_fg: Color::Rgb(100, 180, 255),
            header_bg: Color::Rgb(20, 20, 30),
            footer_fg: Color::Rgb(100, 100, 120),
            footer_bg: Color::Rgb(20, 20, 30),
            footer_text: Color::Rgb(140, 140, 160),
            welcome_title: Color::Rgb(100, 180, 255),
            welcome_feature_heading: Color::Rgb(255, 200, 80),
            welcome_how_heading: Color::Rgb(100, 220, 130),
            log_info: Color::Rgb(100, 220, 130),
            log_warn: Color::Rgb(255, 200, 80),
            log_error: Color::Rgb(255, 90, 90),
            log_debug: Color::Rgb(100, 180, 255),
            log_env: Color::Rgb(160, 130, 255),
            log_date: Color::Rgb(100, 100, 120),
            log_default: Color::Rgb(200, 200, 210),
            content_bg: Color::Rgb(20, 20, 30),
        },
    }
}

impl Theme {
    /// The colours of `scheme`.
    pub fn from_scheme(scheme: &ColorScheme) -> (r: Theme)
        ensures
            r == scheme_theme(*scheme),
    {
        match scheme {
            ColorScheme::Default => Theme {
                border_focused: Color::LightBlue,
                border_normal: Color::Gray,
                border_dim: Color::DarkGray,
                highlight_fg: Color::Black,
                highlight_bg: Color::LightCyan,
                item_local: Color::Yellow,
                item_normal: Color::White,
                header_fg: Color::Cyan,
                header_bg: Color::Reset,
                footer_fg: Color::Gray,
                footer_bg: Color::Reset,
                footer_text: Color::Gray,
                welcome_title: Color::LightCyan,
                welcome_feature_heading: Color::LightYellow,
                welcome_how_heading: Color::LightGreen,
                log_info: Color::LightGreen,
                log_warn: Color::LightYellow,
                log_error: Color::LightRed,
                log_debug: Color::LightCyan,
                log_env: Color::LightBlue,
                log_date: Color::DarkGray,
                log_default: Color::White,
                content_bg: Color::Reset,
            },
            ColorScheme::HighContrast => Theme {
                border_focused: Color::Yellow,
                border_normal: Color::White,
                border_dim: Color::Gray,
                highlight_fg: Color::Black,
                highlight_bg: Color::Yellow,
                item_local: Color::Cyan,
                item_normal: Color::White,
                header_fg: Color::White,
                header_bg: Color::Blue,
                footer_fg: Color::White,
                footer_bg: Color::Blue,
                footer_text: Color::White,
                welcome_title: Color::Cyan,
                welcome_feature_heading: Color::Yellow,
                welcome_how_heading: Color::Green,
                log_info: Color::Green,
                log_warn: Color::Yellow,
                log_error: Color::Red,
                log_debug: Color::Cyan,
                log_env: Color::Blue,
                log_date: Color::Gray,
                log_default: Color::White,
                content_bg: Color::Reset,
            },
            ColorScheme::Dark => Theme {
                border_focused: Color::Rgb(100, 180, 255),
                border_normal: Color::Rgb(100, 100, 120),
                border_dim: Color::Rgb(60, 60, 70),
                highlight_fg: Color::Rgb(20, 20, 30),
                highlight_bg: Color::Rgb(100, 180, 255),
                item_local: Color::Rgb(255, 200, 80),
                item_normal: Color::Rgb(200, 200, 210),
                header_fg: Color::Rgb(100, 180, 255),
                header_bg: Color::Rgb(20, 20, 30),
                footer_fg: Color::Rgb(100, 100, 120),
                footer_bg: Color::Rgb(20, 20, 30),
                footer_text: Color::Rgb(140, 140, 160),
                welcome_title: Color::Rgb(100, 180, 255),
                welcome_feature_heading: Color::Rgb(255, 200, 80),
                welcome_how_heading: Color::Rgb(100, 220, 130),
                log_info: Color::Rgb(100, 220, 130),
                log_warn: Color::Rgb(255, 200, 80),
                log_error: Color::Rgb(255, 90, 90),
                log_debug: Color::Rgb(100, 180, 255),
                log_env: Color::Rgb(160, 130, 255),
                log_date: Color::Rgb(100, 100, 120),
                log_default: Color::Rgb(200, 200, 210),
                content_bg: Color::Rgb(20, 20, 30),
            },
        }
    }
}

/// Distinct schemes look different: their themes differ in the focused
/// border, the highlight background, the header background or the error
/// colour.
pub proof fn lemma_schemes_differ(a: ColorScheme, b: ColorScheme)
    requires
        a != b,
    ensures
        scheme_theme(a).border_focused != scheme_theme(b).border_focused || scheme_theme(
            a,
        ).highlight_bg != scheme_theme(b).highlight_bg || scheme_theme(a).header_bg
            != scheme_theme(b).header_bg || scheme_theme(a).log_error != scheme_theme(b).log_error,
{
}

} // verus!
