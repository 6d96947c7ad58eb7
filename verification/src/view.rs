//! What the screen shows for a state: the layout, the footer's key hints,
//! the sidebar's list, and the main panel (including the styled lines of
//! the log view). Drawing them is left to the terminal front end.
use vstd::prelude::*;
use vstd::string::*;
use crate::app::{App, AppMode, LoadingState};
use crate::config::ServerConfig;
use crate::export::{filter_lines, matching_lines, texts};
use crate::laravel::{parse_with, LaravelMatcher, StyledSpan};
use crate::log_source::FsEntry;
use crate::path::{base_name, base_name_of};
use crate::text::{join2, text_starts_with, starts_with_text, string_from_chars};
use crate::theme::scheme_name;

verus! {

broadcast use vstd::string::group_string_axioms;

// ---------------------------------------------------------------------------
// Layout and footer
// ---------------------------------------------------------------------------

/// Whether the sidebar is shown beside the main panel (the log view uses
/// the whole width).
pub open spec fn sidebar_shown(m: AppMode) -> bool {
    !(m == AppMode::LogViewer || m == AppMode::LogSearchPrompt)
}

/// Whether the sidebar is shown in mode `mode`.
pub fn shows_sidebar(mode: AppMode) -> (r: bool)
    ensures
        r == sidebar_shown(mode),
{
    match mode {
        AppMode::LogViewer | AppMode::LogSearchPrompt => false,
        _ => true,
    }
}

/// The key hints shown in the footer of each mode.
pub open spec fn footer_text(m: AppMode) -> Seq<char> {
    match m {
        AppMode::ServerSelect => " ↑↓ Navigate   ↵ Connect   a New SSH   q Quit   t Theme"@,
        AppMode::SshForm => " ↑↓/Tab Navigate fields   ↵ Save   Esc Cancel"@,
        AppMode::FileExplorer => " ↑↓ Navigate   ↵ Open   / Search   g Goto path   - Parent   s Scan   Esc Back   t Theme"@,
        AppMode::SearchPrompt => " Type to filter   ↵ Confirm   Esc Cancel"@,
        AppMode::GotoPrompt => " Type absolute path   Tab Autocomplete   ↵ Go   Esc Cancel"@,
        AppMode::LogViewer => " ↑↓/j/k Scroll   PgUp/PgDn   Home/End   / Search   r Refresh   e Export   Esc Back"@,
        AppMode::LogSearchPrompt => " Type to search   ↵ Confirm   Esc Cancel"@,
    }
}

/// The footer's key hints for `mode`.
pub fn footer_hints(mode: AppMode) -> (r: &'static str)
    ensures
        r@ == footer_text(mode),
{
    match mode {
        AppMode::ServerSelect => " ↑↓ Navigate   ↵ Connect   a New SSH   q Quit   t Theme",
        AppMode::SshForm => " ↑↓/Tab Navigate fields   ↵ Save   Esc Cancel",
        AppMode::FileExplorer => " ↑↓ Navigate   ↵ Open   / Search   g Goto path   - Parent   s Scan   Esc Back   t Theme",
        AppMode::SearchPrompt => " Type to filter   ↵ Confirm   Esc Cancel",
        AppMode::GotoPrompt => " Type absolute path   Tab Autocomplete   ↵ Go   Esc Cancel",
        AppMode::LogViewer => " ↑↓/j/k Scroll   PgUp/PgDn   Home/End   / Search   r Refresh   e Export   Esc Back",
        AppMode::LogSearchPrompt => " Type to search   ↵ Confirm   Esc Cancel",
    }
}

// ---------------------------------------------------------------------------
// The loading spinner
// ---------------------------------------------------------------------------

/// The frames of the loading spinner.
pub open spec fn spinner_frames() -> Seq<char> {
    seq!['⠋', '⠙', '⠹', '⠸', '⠼', '⠴', '⠦', '⠧', '⠇', '⠏']
}

/// The spinner frame shown for frame counter `frame`.
pub fn spinner_frame(frame: u8) -> (r: char)
    ensures
        r == spinner_frames()[(frame % 10) as int],
{
    match frame % 10 {
        0 => '⠋',
        1 => '⠙',
        2 => '⠹',
        3 => '⠸',
        4 => '⠼',
        5 => '⠴',
        6 => '⠦',
        7 => '⠧',
        8 => '⠇',
        _ => '⠏',
    }
}

// ---------------------------------------------------------------------------
// The sidebar
// ---------------------------------------------------------------------------

/// A row of a list: its text, and whether it is drawn in the "local" colour
/// (else the normal item colour).
pub struct ListRow {
    pub text: String,
    pub local: bool,
}

/// What the sidebar shows.
pub enum SidebarView {
    /// A scan is under way: the spinner frame.
    Scanning(char),
    /// A directory is open: its title, and either its rows or, when it has
    /// no entries, a notice.
    Directory { title: String, rows: Vec<ListRow> },
    /// The server list: the local machine, then each server.
    Servers(Vec<ListRow>),
    /// The filtered sources by name.
    Sources(Vec<ListRow>),
}

/// The mathematical value of a row.
pub open spec fn row_view(r: ListRow) -> (Seq<char>, bool) {
    (r.text@, r.local)
}

/// The views of a list of rows.
pub open spec fn row_views(s: Seq<ListRow>) -> Seq<(Seq<char>, bool)> {
    s.map_values(|r: ListRow| row_view(r))
}

/// The row of a directory entry: a folder mark and the directory's name in
/// the local colour, or a page mark and the log's name.
pub open spec fn entry_row(e: FsEntry) -> (Seq<char>, bool) {
    match e {
        FsEntry::Directory(p) => ("📁 "@ + base_name(p@), true),
        FsEntry::LogFile(s) => ("📄 "@ + s.name@, false),
    }
}

/// The row of a server: `SSH: name (host)`.
pub open spec fn server_row(s: ServerConfig) -> (Seq<char>, bool) {
    ("SSH: "@ + s.name@ + " ("@ + s.host@ + ")"@, false)
}

/// The title of an open directory's list: the path between spaces.
pub open spec fn dir_title(d: Seq<char>) -> Seq<char> {
    " "@ + d + " "@
}

/// What the sidebar shows for a state: the spinner while scanning; an open
/// directory's entries outside the server list; else the server list (the
/// local machine first) or the filtered sources.
pub open spec fn sidebar_ok(a: App, v: SidebarView) -> bool {
    if a.loading == LoadingState::Scanning {
        v == SidebarView::Scanning(spinner_frames()[(a.loading_frame % 10) as int])
    } else if a.mode != AppMode::ServerSelect && a.current_dir is Some {
        v matches SidebarView::Directory { title, rows } && title@ == dir_title(
            a.current_dir.unwrap()@,
        ) && row_views(rows@) == a.fs_entries@.map_values(|e: FsEntry| entry_row(e))
    } else if a.mode == AppMode::ServerSelect {
        v matches SidebarView::Servers(rows) && row_views(rows@) == seq![
            ("Local (This Machine)"@, true),
        ] + a.config.servers@.map_values(|s: ServerConfig| server_row(s))
    } else {
        v matches SidebarView::Sources(rows) && row_views(rows@) == a.filtered_sources@.map_values(
            |s: crate::log_source::LogSource| (s.name@, false),
        )
    }
}

fn entry_rows(entries: &Vec<FsEntry>) -> (r: Vec<ListRow>)
    ensures
        row_views(r@) == entries@.map_values(|e: FsEntry| entry_row(e)),
{
    let mut r: Vec<ListRow> = Vec::new();
    for i in 0..entries.len()
        invariant
            row_views(r@) == entries@.take(i as int).map_values(|e: FsEntry| entry_row(e)),
    {
        let row = match &entries[i] {
            FsEntry::Directory(p) => {
                let name = base_name_of(p.as_str());
                ListRow { text: join2("📁 ", name.as_str()), local: true }
            },
            FsEntry::LogFile(s) => ListRow { text: join2("📄 ", s.name.as_str()), local: false },
        };
        let ghost before = row_views(r@);
        r.push(row);
        proof {
            assert(entries@.take(i + 1) =~= entries@.take(i as int).push(entries@[i as int]));
            assert(row_views(r@) =~= before.push(entry_row(entries@[i as int])));
        }
    }
    proof {
        assert(entries@.take(entries.len() as int) =~= entries@);
    }
    r
}

/// What the sidebar shows for `app` (see `sidebar_ok`).
pub fn sidebar_view(app: &App) -> (r: SidebarView)
    ensures
        sidebar_ok(*app, r),
{
    if app.loading == LoadingState::Scanning {
        return SidebarView::Scanning(spinner_frame(app.loading_frame));
    }
    if app.mode != AppMode::ServerSelect {
        if let Some(dir) = &app.current_dir {
            let a = join2(" ", dir.as_str());
            let title = join2(a.as_str(), " ");
            let rows = entry_rows(&app.fs_entries);
            return SidebarView::Directory { title, rows };
        }
    }
    if app.mode == AppMode::ServerSelect {
        let mut rows: Vec<ListRow> = Vec::new();
        rows.push(ListRow { text: String::from_str("Local (This Machine)"), local: true });
        let ghost servers = app.config.servers@;
        for i in 0..app.config.servers.len()
            invariant
                servers == app.config.servers@,
                row_views(rows@) == seq![("Local (This Machine)"@, true)] + servers.take(
                    i as int,
                ).map_values(|s: ServerConfig| server_row(s)),
        {
            let s = &app.config.servers[i];
            let t1 = join2("SSH: ", s.name.as_str());
            let t2 = join2(t1.as_str(), " (");
            let t3 = join2(t2.as_str(), s.host.as_str());
            let t4 = join2(t3.as_str(), ")");
            let ghost before = row_views(rows@);
            rows.push(ListRow { text: t4, local: false });
            proof {
                assert(servers.take(i + 1) =~= servers.take(i as int).push(servers[i as int]));
                assert(row_views(rows@) =~= before.push(server_row(servers[i as int])));
                assert(servers.take(i + 1).map_values(|s: ServerConfig| server_row(s))
                    =~= servers.take(i as int).map_values(|s: ServerConfig| server_row(s)).push(
                    server_row(servers[i as int]),
                ));
            }
        }
        proof {
            assert(servers.take(servers.len() as int) =~= servers);
        }
        SidebarView::Servers(rows)
    } else {
        let mut rows: Vec<ListRow> = Vec::new();
        let ghost srcs = app.filtered_sources@;
        for i in 0..app.filtered_sources.len()
            invariant
                srcs == app.filtered_sources@,
                row_views(rows@) == srcs.take(i as int).map_values(
                    |s: crate::log_source::LogSource| (s.name@, false),
                ),
        {
            let ghost before = row_views(rows@);
            rows.push(ListRow { text: app.filtered_sources[i].name.clone(), local: false });
            proof {
                assert(srcs.take(i + 1) =~= srcs.take(i as int).push(srcs[i as int]));
                assert(row_views(rows@) =~= before.push((srcs[i as int].name@, false)));
            }
        }
        proof {
            assert(srcs.take(srcs.len() as int) =~= srcs);
        }
        SidebarView::Sources(rows)
    }
}

// ---------------------------------------------------------------------------
// The main panel
// ---------------------------------------------------------------------------

/// One field of the "add server" form as shown: its text (a space when
/// empty) followed by `_` when it is the active field.
pub open spec fn form_field_text(value: Seq<char>, active: bool) -> Seq<char> {
    let shown = if value.len() == 0 {
        seq![' ']
    } else {
        value
    };
    if active {
        shown + seq!['_']
    } else {
        shown
    }
}

/// The search box of the file explorer as shown: a hint when it is empty
/// and not being typed into, else its text.
pub open spec fn finder_text(value: Seq<char>, searching: bool) -> Seq<char> {
    if value.len() == 0 && !searching {
        " Press '/' to search..."@
    } else {
        value
    }
}

/// The title of the log view: the log's name (`Logs` when none is open),
/// then the search text while searching or when it is set, else the keys.
pub open spec fn log_title_text(name: Seq<char>, searching: bool, query: Seq<char>) -> Seq<char> {
    if searching || query.len() > 0 {
        " "@ + name + " — Search: "@ + query + "_ "@
    } else {
        " "@ + name + " — [/] Search  [r] Refresh  [e] Export "@
    }
}

/// What the main panel shows.
pub enum MainPanel {
    /// Connecting to a server: the spinner frame.
    Connecting(char),
    /// A status message.
    Status(String),
    /// The "add server" form: each field's text as shown, and the active field.
    Form { fields: Vec<String>, active: usize },
    /// The welcome text, naming the colour scheme.
    Welcome(&'static str),
    /// The "go to path" prompt: the typed text with a cursor mark.
    Goto(String),
    /// The file explorer's search box: its text, and whether it has focus.
    Finder { text: String, focused: bool },
    /// The log view.
    Log(LogPanel),
}

/// The log view: its title, the shown lines (styled), the scroll position,
/// whether the search has focus, and the export message with whether it
/// reports a failure.
pub struct LogPanel {
    pub title: String,
    pub lines: Vec<Vec<StyledSpan>>,
    pub scroll: u16,
    pub focused: bool,
    pub export: Option<(String, bool)>,
}

/// Which main panel a state shows: the connecting spinner, else a status
/// message when idle, else the form, the welcome text, the path prompt, the
/// search box, or the log view, by mode.
pub open spec fn main_kind_ok(a: App, p: MainPanel) -> bool {
    if a.loading == LoadingState::Connecting {
        p == MainPanel::Connecting(spinner_frames()[(a.loading_frame % 10) as int])
    } else if a.loading == LoadingState::Idle && a.status_message is Some {
        p matches MainPanel::Status(m) && m@ == a.status_message.unwrap()@
    } else if a.mode == AppMode::SshForm {
        p matches MainPanel::Form { fields, active } && active == a.ssh_form.active_field
            && fields@.len() == a.ssh_form.inputs@.len() && forall|i: int|
            0 <= i < fields@.len() ==> (#[trigger] fields@[i])@ == form_field_text(
                a.ssh_form.inputs@[i].value@,
                i == a.ssh_form.active_field,
            )
    } else if a.mode == AppMode::ServerSelect {
        p matches MainPanel::Welcome(n) && n@ == scheme_name(a.color_scheme)
    } else if a.mode == AppMode::GotoPrompt {
        p matches MainPanel::Goto(t) && t@ == a.goto_input.value@ + seq!['_']
    } else if a.mode == AppMode::FileExplorer || a.mode == AppMode::SearchPrompt {
        p matches MainPanel::Finder { text, focused } && focused == (a.mode
            == AppMode::SearchPrompt) && text@ == finder_text(
            a.search_input.value@,
            a.mode == AppMode::SearchPrompt,
        )
    } else {
        p matches MainPanel::Log(l) && log_panel_ok(a, l)
    }
}

/// The log view of a state: the open log's lines that match the search,
/// each styled as a Laravel line; its title; its scroll position (0 with no
/// open log); focus while searching; and the export message, a failure when
/// it starts with `Export failed`.
pub open spec fn log_panel_ok(a: App, l: LogPanel) -> bool {
    let searching = a.mode == AppMode::LogSearchPrompt;
    let query = a.search_input.value@;
    let name = match a.active_log {
        Some(log) => log.source.name@,
        None => "Logs"@,
    };
    let shown = match a.active_log {
        Some(log) => matching_lines(texts(log.lines@), query),
        None => Seq::<Seq<char>>::empty(),
    };
    &&& l.title@ == log_title_text(name, searching, query)
    &&& l.lines@.len() == shown.len()
    &&& forall|i: int|
        0 <= i < shown.len() ==> crate::laravel::span_views((#[trigger] l.lines@[i])@)
            == crate::laravel::laravel_spans(
            shown[i],
            crate::laravel::regex_captures_of(crate::laravel::LARAVEL_PATTERN@, shown[i]),
            crate::theme::scheme_theme(a.color_scheme),
        )
    &&& l.scroll == match a.active_log {
        Some(log) => log.scroll,
        None => 0,
    }
    &&& l.focused == searching
    &&& match a.export_message {
        Some(m) => l.export matches Some((t, failed)) && t@ == m@ && failed == starts_with_text(
            m@,
            "Export failed"@,
        ),
        None => l.export is None,
    }
}

fn form_fields(app: &App) -> (r: Vec<String>)
    requires
        app.wf(),
    ensures
        r@.len() == app.ssh_form.inputs@.len(),
        forall|i: int|
            0 <= i < r@.len() ==> (#[trigger] r@[i])@ == form_field_text(
                app.ssh_form.inputs@[i].value@,
                i == app.ssh_form.active_field,
            ),
{
    let mut r: Vec<String> = Vec::new();
    for i in 0..app.ssh_form.inputs.len()
        invariant
            r@.len() == i,
            forall|k: int|
                0 <= k < i ==> (#[trigger] r@[k])@ == form_field_text(
                    app.ssh_form.inputs@[k].value@,
                    k == app.ssh_form.active_field,
                ),
    {
        let v = app.ssh_form.inputs[i].value();
        let mut shown = if v.is_empty() {
            let s = String::from_str(" ");
            proof {
                reveal_strlit(" ");
                assert(s@ =~= seq![' ']);
            }
            s
        } else {
            String::from_str(v)
        };
        if i == app.ssh_form.active_field {
            shown = join2(shown.as_str(), "_");
            proof {
                reveal_strlit("_");
                assert("_"@ =~= seq!['_']);
            }
        }
        r.push(shown);
    }
    r
}

fn log_panel(app: &App) -> (r: LogPanel)
    ensures
        log_panel_ok(*app, r),
{
    let searching = app.mode == AppMode::LogSearchPrompt;
    let query = app.search_input.value();
    let name = match &app.active_log {
        Some(log) => log.source.name.clone(),
        None => String::from_str("Logs"),
    };
    let title = if searching || !query.is_empty() {
        let a = join2(" ", name.as_str());
        let b = join2(a.as_str(), " — Search: ");
        let c = join2(b.as_str(), query);
        join2(c.as_str(), "_ ")
    } else {
        let a = join2(" ", name.as_str());
        join2(a.as_str(), " — [/] Search  [r] Refresh  [e] Export ")
    };
    let theme = crate::theme::Theme::from_scheme(&app.color_scheme);
    let matcher = LaravelMatcher::new();
    let mut lines: Vec<Vec<StyledSpan>> = Vec::new();
    let ghost shown = match &app.active_log {
        Some(log) => matching_lines(texts(log.lines@), query@),
        None => Seq::<Seq<char>>::empty(),
    };
    match &app.active_log {
        Some(log) => {
            let kept = filter_lines(&log.lines, query);
            for i in 0..kept.len()
                invariant
                    texts(kept@) == shown,
                    theme == crate::theme::scheme_theme(app.color_scheme),
                    matcher@ == crate::laravel::LARAVEL_PATTERN@,
                    lines@.len() == i,
                    forall|k: int|
                        0 <= k < i ==> crate::laravel::span_views((#[trigger] lines@[k])@)
                            == crate::laravel::laravel_spans(
                            shown[k],
                            crate::laravel::regex_captures_of(
                                crate::laravel::LARAVEL_PATTERN@,
                                shown[k],
                            ),
                            theme,
                        ),
            {
                let spans = parse_with(&matcher, kept[i].as_str(), &theme);
                proof {
                    assert(kept@[i as int]@ == shown[i as int]);
                }
                lines.push(spans);
            }
        },
        None => {},
    }
    let scroll = match &app.active_log {
        Some(log) => log.scroll,
        None => 0,
    };
    let export = match &app.export_message {
        Some(m) => {
            proof {
                reveal_strlit("Export failed");
            }
            let failed = text_starts_with(m.as_str(), "Export failed");
            Some((m.clone(), failed))
        },
        None => None,
    };
    LogPanel { title, lines, scroll, focused: searching, export }
}

/// What the main panel shows for `app` (see `main_kind_ok`).
pub fn main_panel(app: &App) -> (r: MainPanel)
    requires
        app.wf(),
    ensures
        main_kind_ok(*app, r),
{
    if app.loading == LoadingState::Connecting {
        return MainPanel::Connecting(spinner_frame(app.loading_frame));
    }
    if app.loading == LoadingState::Idle {
        if let Some(m) = &app.status_message {
            return MainPanel::Status(m.clone());
        }
    }
    match app.mode {
        AppMode::SshForm => MainPanel::Form {
            fields: form_fields(app),
            active: app.ssh_form.active_field,
        },
        AppMode::ServerSelect => MainPanel::Welcome(app.color_scheme.name()),
        AppMode::GotoPrompt => {
            let t = join2(app.goto_input.value(), "_");
            proof {
                reveal_strlit("_");
                assert("_"@ =~= seq!['_']);
            }
            MainPanel::Goto(t)
        },
        AppMode::FileExplorer | AppMode::SearchPrompt => {
            let searching = app.mode == AppMode::SearchPrompt;
            let v = app.search_input.value();
            let text = if v.is_empty() && !searching {
                String::from_str(" Press '/' to search...")
            } else {
                String::from_str(v)
            };
            MainPanel::Finder { text, focused: searching }
        },
        _ => MainPanel::Log(log_panel(app)),
    }
}

/// What `e` exports from the log view is exactly what the view shows: the
/// exported lines, filtered by the exported query, are the shown lines, in
/// order.
pub proof fn lemma_export_is_shown(
    a: App,
    b: App,
    cmd: crate::app::Command,
    panel: LogPanel,
)
    requires
        a.mode == AppMode::LogViewer,
        crate::app::key_step(
            a,
            crate::input::KeyPress {
                code: crate::input::KeyCode::Char('e'),
                modifiers: crate::input::Modifiers::Plain,
            },
            b,
            cmd,
        ),
        log_panel_ok(b, panel),
    ensures
        cmd matches crate::app::Command::Export { lines, query } && matching_lines(
            texts(lines@),
            query@,
        ).len() == panel.lines@.len() && forall|i: int|
            0 <= i < panel.lines@.len() ==> crate::laravel::span_views(
                (#[trigger] panel.lines@[i])@,
            ) == crate::laravel::laravel_spans(
                matching_lines(texts(lines@), query@)[i],
                crate::laravel::regex_captures_of(
                    crate::laravel::LARAVEL_PATTERN@,
                    matching_lines(texts(lines@), query@)[i],
                ),
                crate::theme::scheme_theme(a.color_scheme),
            ),
{
}

} // verus!
