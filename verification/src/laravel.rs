//! Styling of Laravel log lines such as
//! `[2024-04-02 12:00:00] local.INFO: Some message here`: the date, the
//! environment and the level each get a colour, the level in bold.
use vstd::prelude::*;
use vstd::string::*;
use crate::text::{join2, text_eq};
use crate::theme::{Color, Theme};

verus! {

broadcast use vstd::string::group_string_axioms;

/// The pattern of a Laravel log line: `[date] env.LEVEL: message`.
pub const LARAVEL_PATTERN: &'static str = "^\\[(?P<date>[^\\]]+)\\] (?P<env>\\w+)\\.(?P<level>[A-Z]+): (?P<msg>.*)$";

/// The four parts of a Laravel log line.
pub struct LaravelFields {
    pub date: String,
    pub env: String,
    pub level: String,
    pub msg: String,
}

/// What the regex engine captures for a pattern and a text: the texts of
/// the capture groups 1 to 4 when the pattern matches.
pub uninterp spec fn regex_captures_of(pattern: Seq<char>, input: Seq<char>) -> Option<
    (Seq<char>, Seq<char>, Seq<char>, Seq<char>),
>;

/// `input` is `[d] e.l: m`.
pub open spec fn laravel_shape(
    input: Seq<char>,
    d: Seq<char>,
    e: Seq<char>,
    l: Seq<char>,
    m: Seq<char>,
) -> bool {
    input == seq!['['] + d + seq![']', ' '] + e + seq!['.'] + l + seq![':', ' '] + m
}

/// A date as the pattern admits it: non-empty, no `]`.
pub open spec fn date_ok(d: Seq<char>) -> bool {
    d.len() > 0 && forall|i: int| 0 <= i < d.len() ==> d[i] != ']'
}

/// A level as the pattern admits it: one or more of `A` to `Z`.
pub open spec fn level_ok(l: Seq<char>) -> bool {
    l.len() > 0 && forall|i: int| 0 <= i < l.len() ==> 'A' <= #[trigger] l[i] && l[i] <= 'Z'
}

/// A message as the pattern admits it: no line feed.
pub open spec fn msg_ok(m: Seq<char>) -> bool {
    forall|i: int| 0 <= i < m.len() ==> m[i] != '\n'
}

/// An ASCII word character (`[A-Za-z0-9_]`), which `\w` matches.
pub open spec fn ascii_word_char(c: char) -> bool {
    ('a' <= c && c <= 'z') || ('A' <= c && c <= 'Z') || ('0' <= c && c <= '9') || c == '_'
}

/// An environment made of ASCII word characters only.
pub open spec fn ascii_env_ok(e: Seq<char>) -> bool {
    e.len() > 0 && forall|i: int| 0 <= i < e.len() ==> ascii_word_char(#[trigger] e[i])
}

/// Every split of `input` as `[d] e.l: m` that the pattern admits, with
/// `e` made of ASCII word characters, is what `r` captured.
pub open spec fn shaped_line_matches(input: Seq<char>, r: Option<LaravelFields>) -> bool {
    forall|d: Seq<char>, e: Seq<char>, l: Seq<char>, m: Seq<char>|
        laravel_shape(input, d, e, l, m) && date_ok(d) && ascii_env_ok(e) && level_ok(l) && msg_ok(m)
            ==> (r matches Some(f) && f.date@ == d && f.env@ == e && f.level@ == l && f.msg@ == m)
}

/// A compiled regular expression (`regex::Regex`).
#[verifier::external_type_specification]
#[verifier::external_body]
pub struct ExRegex(regex::Regex);

/// The Laravel line pattern, compiled once to be matched against many
/// lines. Its view is the text of the pattern it was compiled from: the
/// fields are private and `compile_pattern` is the only place that builds one.
pub struct LaravelMatcher {
    regex: regex::Regex,
    source: String,
}

impl View for LaravelMatcher {
    type V = Seq<char>;

    closed spec fn view(&self) -> Seq<char> {
        self.source@
    }
}

/// `Regex::new` on `pattern`, kept with the pattern's text. It is only
/// called with `LARAVEL_PATTERN`, which compiles, so it does not fail.
/// Claimed: the matcher's view is `pattern`.
#[verifier::external_body]
fn compile_pattern(pattern: &str) -> (r: LaravelMatcher)
    requires
        pattern@ == LARAVEL_PATTERN@,
    ensures
        r@ == pattern@,
{
    LaravelMatcher { regex: regex::Regex::new(pattern).unwrap(), source: pattern.to_string() }
}

/// `Regex::captures(input)` with the matcher compiled from `LARAVEL_PATTERN`,
/// giving the texts of groups 1 to 4. Claimed, from that pattern: a match
/// splits the line as `[d] e.l: m` with `d` free of `]`, `l` made of
/// `A`-`Z`, `m` free of line feeds and `e` non-empty and free of `.`; and a
/// line of that shape whose `e` is made of ASCII word characters matches
/// with exactly those parts. Which non-ASCII characters `\w` admits in `e`
/// is not stated.
#[verifier::external_body]
fn regex_captures(matcher: &LaravelMatcher, input: &str) -> (r: Option<LaravelFields>)
    requires
        matcher@ == LARAVEL_PATTERN@,
    ensures
        match r {
            Some(f) => regex_captures_of(matcher@, input@) == Some(
                (f.date@, f.env@, f.level@, f.msg@),
            ),
            None => regex_captures_of(matcher@, input@) is None,
        },
        r matches Some(f) ==> laravel_shape(input@, f.date@, f.env@, f.level@, f.msg@) && date_ok(
            f.date@,
        ) && level_ok(f.level@) && msg_ok(f.msg@) && f.env@.len() > 0 && !f.env@.contains('.'),
        shaped_line_matches(input@, r),
{
    let caps = matcher.regex.captures(input)?;
    let part = |i: usize| caps.get(i).map_or("", |m| m.as_str()).to_string();
    Some(LaravelFields { date: part(1), env: part(2), level: part(3), msg: part(4) })
}

impl LaravelMatcher {
    /// The Laravel line pattern, compiled.
    pub fn new() -> (r: LaravelMatcher)
        ensures
            r@ == LARAVEL_PATTERN@,
    {
        compile_pattern(LARAVEL_PATTERN)
    }
}

/// A run of text with an optional foreground colour, possibly bold.
#[derive(Debug)]
pub struct StyledSpan {
    pub text: String,
    pub fg: Option<Color>,
    pub bold: bool,
}

/// The mathematical value of a span.
pub struct SpanView {
    pub text: Seq<char>,
    pub fg: Option<Color>,
    pub bold: bool,
}

impl View for StyledSpan {
    type V = SpanView;

    open spec fn view(&self) -> SpanView {
        SpanView { text: self.text@, fg: self.fg, bold: self.bold }
    }
}

/// The views of a list of spans.
pub open spec fn span_views(s: Seq<StyledSpan>) -> Seq<SpanView> {
    s.map_values(|x: StyledSpan| x@)
}

/// The colour of a log level: INFO, WARNING, ERROR/CRITICAL/EMERGENCY and
/// DEBUG have their own; any other level gets the default log colour.
pub open spec fn level_color(level: Seq<char>, theme: Theme) -> Color {
    if level == "INFO"@ {
        theme.log_info
    } else if level == "WARNING"@ {
        theme.log_warn
    } else if level == "ERROR"@ || level == "CRITICAL"@ || level == "EMERGENCY"@ {
        theme.log_error
    } else if level == "DEBUG"@ {
        theme.log_debug
    } else {
        theme.log_default
    }
}

/// The spans of a line, given what the Laravel pattern captured of it:
/// `[date] ` in the date colour, `env.` in the environment colour, `LEVEL: `
/// bold in the level's colour, then the message unstyled; a line that does
/// not match is one unstyled span.
pub open spec fn laravel_spans(
    input: Seq<char>,
    fields: Option<(Seq<char>, Seq<char>, Seq<char>, Seq<char>)>,
    theme: Theme,
) -> Seq<SpanView> {
    match fields {
        Some((d, e, l, m)) => seq![
            SpanView { text: seq!['['] + d + seq![']', ' '], fg: Some(theme.log_date), bold: false },
            SpanView { text: e + seq!['.'], fg: Some(theme.log_env), bold: false },
            SpanView { text: l + seq![':', ' '], fg: Some(level_color(l, theme)), bold: true },
            SpanView { text: m, fg: None, bold: false },
        ],
        None => seq![SpanView { text: input, fg: None, bold: false }],
    }
}

fn level_color_of(level: &str, theme: &Theme) -> (r: Color)
    ensures
        r == level_color(level@, *theme),
{
    if text_eq(level, "INFO") {
        theme.log_info
    } else if text_eq(level, "WARNING") {
        theme.log_warn
    } else if text_eq(level, "ERROR") || text_eq(level, "CRITICAL") || text_eq(level, "EMERGENCY") {
        theme.log_error
    } else if text_eq(level, "DEBUG") {
        theme.log_debug
    } else {
        theme.log_default
    }
}

/// Styles `input` given the parts the Laravel pattern captured of it
/// (`None` when it does not match).
pub fn style_laravel_line(input: &str, fields: Option<LaravelFields>, theme: &Theme) -> (r: Vec<
    StyledSpan,
>)
    ensures
        span_views(r@) == laravel_spans(
            input@,
            match fields {
                Some(f) => Some((f.date@, f.env@, f.level@, f.msg@)),
                None => None,
            },
            *theme,
        ),
{
    proof {
        reveal_strlit("[");
        reveal_strlit("] ");
        reveal_strlit(".");
        reveal_strlit(": ");
    }
    let mut r: Vec<StyledSpan> = Vec::new();
    match fields {
        Some(f) => {
            let a = join2("[", f.date.as_str());
            let date = join2(a.as_str(), "] ");
            let env = join2(f.env.as_str(), ".");
            let color = level_color_of(f.level.as_str(), theme);
            let level = join2(f.level.as_str(), ": ");
            r.push(StyledSpan { text: date, fg: Some(theme.log_date), bold: false });
            r.push(StyledSpan { text: env, fg: Some(theme.log_env), bold: false });
            r.push(StyledSpan { text: level, fg: Some(color), bold: true });
            r.push(StyledSpan { text: f.msg, fg: None, bold: false });
            proof {
                assert("["@ =~= seq!['[']);
                assert("] "@ =~= seq![']', ' ']);
                assert("."@ =~= seq!['.']);
                assert(": "@ =~= seq![':', ' ']);
                assert(span_views(r@) =~= laravel_spans(
                    input@,
                    Some((f.date@, f.env@, f.level@, f.msg@)),
                    *theme,
                ));
            }
        },
        None => {
            r.push(StyledSpan { text: String::from_str(input), fg: None, bold: false });
            proof {
                assert(span_views(r@) =~= laravel_spans(input@, None, *theme));
            }
        },
    }
    r
}

/// The text of a run of spans, one after the other.
pub open spec fn joined_text(s: Seq<SpanView>) -> Seq<char>
    decreases s.len(),
{
    if s.len() == 0 {
        Seq::empty()
    } else {
        joined_text(s.drop_last()) + s.last().text
    }
}

/// `input` splits as `[d] e.l: m` as the Laravel pattern admits it, with
/// `e` a non-empty environment without a dot.
pub open spec fn laravel_split(input: Seq<char>, d: Seq<char>, e: Seq<char>, l: Seq<char>, m: Seq<char>) -> bool {
    laravel_shape(input, d, e, l, m) && date_ok(d) && level_ok(l) && msg_ok(m) && e.len() > 0
        && !e.contains('.')
}

/// What is known of the spans of a line, whatever the pattern engine does
/// with non-ASCII environments: they join back to the line; a line with no
/// Laravel split is one plain span; a line that splits with an ASCII
/// environment is styled by that split.
pub open spec fn styled_line_facts(input: Seq<char>, v: Seq<SpanView>, theme: Theme) -> bool {
    &&& joined_text(v) == input
    &&& (forall|d: Seq<char>, e: Seq<char>, l: Seq<char>, m: Seq<char>|
        !laravel_split(input, d, e, l, m)) ==> v == seq![
        SpanView { text: input, fg: None, bold: false },
    ]
    &&& forall|d: Seq<char>, e: Seq<char>, l: Seq<char>, m: Seq<char>|
        laravel_shape(input, d, e, l, m) && date_ok(d) && ascii_env_ok(e) && level_ok(l) && msg_ok(
            m,
        ) ==> v == laravel_spans(input, Some((d, e, l, m)), theme)
}

proof fn lemma_joined_four(a: SpanView, b: SpanView, c: SpanView, d: SpanView)
    ensures
        joined_text(seq![a, b, c, d]) == a.text + b.text + c.text + d.text,
{
    let s0 = Seq::<SpanView>::empty();
    let s1 = seq![a];
    let s2 = seq![a, b];
    let s3 = seq![a, b, c];
    let s4 = seq![a, b, c, d];
    assert(s1.drop_last() =~= s0);
    assert(s2.drop_last() =~= s1);
    assert(s3.drop_last() =~= s2);
    assert(s4.drop_last() =~= s3);
    assert(joined_text(s0) == Seq::<char>::empty());
    assert(joined_text(s1) == joined_text(s0) + a.text);
    assert(joined_text(s1) =~= a.text);
    assert(joined_text(s2) == joined_text(s1) + b.text);
    assert(joined_text(s3) == joined_text(s2) + c.text);
    assert(joined_text(s4) == joined_text(s3) + d.text);
}

/// Styles a log line with a compiled matcher (see `parse_laravel_line`).
pub fn parse_with(matcher: &LaravelMatcher, input: &str, theme: &Theme) -> (r: Vec<StyledSpan>)
    requires
        matcher@ == LARAVEL_PATTERN@,
    ensures
        span_views(r@) == laravel_spans(input@, regex_captures_of(LARAVEL_PATTERN@, input@), *theme),
        styled_line_facts(input@, span_views(r@), *theme),
{
    let fields = regex_captures(matcher, input);
    let ghost found = fields;
    let r = style_laravel_line(input, fields, theme);
    proof {
        let v = span_views(r@);
        match found {
            Some(f) => {
                let (d, e, l, m) = (f.date@, f.env@, f.level@, f.msg@);
                assert(laravel_split(input@, d, e, l, m));
                lemma_joined_four(v[0], v[1], v[2], v[3]);
                assert(v =~= seq![v[0], v[1], v[2], v[3]]);
                assert(joined_text(v) =~= input@);
            },
            None => {
                assert(v.drop_last() =~= Seq::<SpanView>::empty());
                assert(joined_text(Seq::<SpanView>::empty()) == Seq::<char>::empty());
                assert(joined_text(v) == joined_text(v.drop_last()) + v.last().text);
                assert(joined_text(v) =~= input@);
                assert forall|d: Seq<char>, e: Seq<char>, l: Seq<char>, m: Seq<char>|
                    laravel_shape(input@, d, e, l, m) && date_ok(d) && ascii_env_ok(e) && level_ok(l)
                        && msg_ok(m) implies v == laravel_spans(input@, Some((d, e, l, m)), *theme) by {
                    assert(shaped_line_matches(input@, found));
                }
            },
        }
    }
    r
}

/// Styles a log line: a Laravel line is split into coloured parts (see
/// `laravel_spans`), any other line is shown as it is.
pub fn parse_laravel_line(input: &str, theme: &Theme) -> (r: Vec<StyledSpan>)
    ensures
        span_views(r@) == laravel_spans(input@, regex_captures_of(LARAVEL_PATTERN@, input@), *theme),
        styled_line_facts(input@, span_views(r@), *theme),
{
    let matcher = LaravelMatcher::new();
    parse_with(&matcher, input, theme)
}

} // verus!
