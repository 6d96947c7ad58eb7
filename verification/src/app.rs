//! The browser's state and how it moves: each key press or tick changes the
//! state and names the outside work to do next (a `Command`); the result of
//! that work is handed back through the `finish_*` methods.
use vstd::prelude::*;
use vstd::string::*;
use crate::config::{form_server_ok, server_from_form, AppConfig};
use crate::export::texts;
use crate::input::{handle_search_input, prompt_step, EditRequest, KeyCode, KeyPress, Modifiers, TextInput};
use crate::input::edit_result_of;
use crate::log_reader::ActiveLog;
use crate::log_source::{entry_views, source_views, FsEntry, LogSource, LogSourceView};
use crate::config::copy_strings;
use crate::path::{path_parent, path_parent_of};
use crate::input::prompt_changed;
use crate::text::{contains_text, lowercase_text, text_contains, to_lowercase, trim_text, trimmed};
use crate::theme::{next_scheme, ColorScheme};

verus! {

broadcast use vstd::string::group_string_axioms;

/// Whether a blocking operation is under way.
#[derive(Debug, Clone, Copy, PartialEq, Eq, Structural)]
pub enum LoadingState {
    Idle,
    Connecting,
    Scanning,
}

/// The screen the browser is on.
#[derive(Debug, Clone, Copy, PartialEq, Eq, Structural)]
pub enum AppMode {
    ServerSelect,
    FileExplorer,
    LogViewer,
    SearchPrompt,
    LogSearchPrompt,
    SshForm,
    GotoPrompt,
}

/// The number of fields of the "add server" form: name, host, port, user
/// name, and password or key path.
pub const FORM_FIELDS: usize = 5;

/// The "add server" form.
pub struct SshFormState {
    pub inputs: Vec<TextInput>,
    pub active_field: usize,
}

impl SshFormState {
    /// The form's well-formedness: five well-formed inputs, one of them active.
    pub open spec fn wf(&self) -> bool {
        &&& self.inputs@.len() == FORM_FIELDS
        &&& self.active_field < FORM_FIELDS
        &&& forall|i: int| 0 <= i < FORM_FIELDS ==> (#[trigger] self.inputs@[i]).wf()
    }

    /// The form is empty with its first field active.
    pub open spec fn is_blank(&self) -> bool {
        &&& self.wf()
        &&& self.active_field == 0
        &&& forall|i: int|
            0 <= i < FORM_FIELDS ==> (#[trigger] self.inputs@[i]).value@.len() == 0
                && self.inputs@[i].cursor == 0
    }
}

impl Default for SshFormState {
    fn default() -> (r: SshFormState)
        ensures
            r.is_blank(),
    {
        let mut inputs: Vec<TextInput> = Vec::new();
        inputs.push(TextInput::new());
        inputs.push(TextInput::new());
        inputs.push(TextInput::new());
        inputs.push(TextInput::new());
        inputs.push(TextInput::new());
        SshFormState { inputs, active_field: 0 }
    }
}

/// Work the browser asks its host to do after a key press or tick.
#[derive(Debug)]
pub enum Command {
    /// Nothing to do.
    Nothing,
    /// Stop the event loop (delivered back as `AppEvent::Quit`).
    Quit,
    /// Save the settings (errors are ignored).
    SaveConfig,
    /// Walk the scan roots for local logs, then `finish_discover`.
    DiscoverLocal,
    /// Connect to the server at this index of the settings and scan it, then
    /// `finish_connect`.
    Connect(usize),
    /// List this directory, then `finish_list_dir`.
    ListDir(String),
    /// Read the log's last lines, then `finish_open_log`.
    OpenLog(LogSource),
    /// Read the log's last lines again, then `finish_refresh`.
    RefreshLog(LogSource),
    /// Scan this directory (the working directory when `None`) three levels
    /// deep, and list it again when `relist`; then `finish_shallow_scan`.
    ShallowScan { dir: Option<String>, relist: bool },
    /// See whether this path is a directory and list it; then `finish_goto`.
    Goto(String),
    /// List the directory to complete this text in; then `finish_tab_complete`.
    TabComplete(String),
    /// Write these lines, filtered by the query, to a snapshot file; then
    /// `finish_export`.
    Export { lines: Vec<String>, query: String },
}

/// An event delivered to the browser.
#[derive(Debug, Clone, Copy)]
pub enum AppEvent {
    Tick,
    Key(KeyPress),
    Quit,
}

/// The browser's state.
pub struct App {
    pub running: bool,
    pub mode: AppMode,
    pub config: AppConfig,
    /// Whether an SSH session is open (the logs are then remote).
    pub ssh_connected: bool,
    pub sources: Vec<LogSource>,
    pub filtered_sources: Vec<LogSource>,
    /// The highlighted row of the current list.
    pub selected: Option<usize>,
    /// The directory being browsed, if any.
    pub current_dir: Option<String>,
    pub fs_entries: Vec<FsEntry>,
    pub search_input: TextInput,
    pub goto_input: TextInput,
    pub ssh_form: SshFormState,
    pub active_log: Option<ActiveLog>,
    pub color_scheme: ColorScheme,
    pub loading: LoadingState,
    pub loading_frame: u8,
    pub status_message: Option<String>,
    pub export_message: Option<String>,
    /// The user's home directory, where "go to path" starts when no
    /// directory is open.
    pub home_dir: Option<String>,
}

/// The sources whose lower-case name contains the lower-case query (all of
/// them when the lower-case query is empty), in order.
pub open spec fn search_matches(sources: Seq<LogSourceView>, query: Seq<char>) -> Seq<LogSourceView> {
    let q = lowercase_text(query);
    if q.len() == 0 {
        sources
    } else {
        sources.filter(|s: LogSourceView| contains_text(lowercase_text(s.name), q))
    }
}

/// The row highlighted after moving up in a list of `max` rows.
pub open spec fn cursor_up_of(sel: Option<usize>, max: usize) -> Option<usize> {
    if max == 0 {
        sel
    } else {
        Some(
            match sel {
                Some(i) => if i == 0 {
                    0
                } else {
                    (i - 1) as usize
                },
                None => 0,
            },
        )
    }
}

/// The row highlighted after moving down in a list of `max` rows.
pub open spec fn cursor_down_of(sel: Option<usize>, max: usize) -> Option<usize> {
    if max == 0 {
        sel
    } else {
        Some(
            match sel {
                Some(i) => if i + 1 < max {
                    (i + 1) as usize
                } else {
                    i
                },
                None => 0,
            },
        )
    }
}

/// Moving the highlight up or down keeps it within a non-empty list it was
/// within.
pub proof fn lemma_cursor_stays_in_range(sel: Option<usize>, max: usize)
    requires
        max > 0,
        sel matches Some(i) ==> i < max,
    ensures
        cursor_up_of(sel, max) matches Some(i) && i < max,
        cursor_down_of(sel, max) matches Some(i) && i < max,
{
}

/// Moving down then up returns to the row one started on when it was not
/// the last row.
pub proof fn lemma_cursor_down_up(i: usize, max: usize)
    requires
        i + 1 < max,
    ensures
        cursor_up_of(cursor_down_of(Some(i), max), max) == Some(i),
{
}

/// Every source the search shows has the query, ignoring case, in its
/// name, and comes from the sources; with an empty query all are shown.
pub proof fn lemma_search_matches(sources: Seq<LogSourceView>, query: Seq<char>)
    ensures
        lowercase_text(query).len() == 0 ==> search_matches(sources, query) == sources,
        lowercase_text(query).len() > 0 ==> forall|i: int|
            0 <= i < search_matches(sources, query).len() ==> contains_text(
                lowercase_text(#[trigger] search_matches(sources, query)[i].name),
                lowercase_text(query),
            ) && sources.contains(search_matches(sources, query)[i]),
{
    let q = lowercase_text(query);
    if q.len() > 0 {
        let pred = |s: LogSourceView| contains_text(lowercase_text(s.name), q);
        broadcast use vstd::seq_lib::group_filter_ensures;
        let f = sources.filter(pred);
        assert(f == search_matches(sources, query));
        assert forall|i: int| 0 <= i < f.len() implies sources.contains(#[trigger] f[i]) by {
            assert(f.contains(f[i]));
            sources.lemma_filter_contains_rev(pred, f[i]);
        }
    }
}

/// The search misses no source: every source whose lower-case name contains
/// the lower-case query, at any position, is shown.
pub proof fn lemma_search_complete(sources: Seq<LogSourceView>, query: Seq<char>)
    ensures
        forall|i: int|
            0 <= i < sources.len() && contains_text(
                lowercase_text(#[trigger] sources[i].name),
                lowercase_text(query),
            ) ==> search_matches(sources, query).contains(sources[i]),
{
    let q = lowercase_text(query);
    assert forall|i: int|
        0 <= i < sources.len() && contains_text(
            lowercase_text(#[trigger] sources[i].name),
            q,
        ) implies search_matches(sources, query).contains(sources[i]) by {
        if q.len() == 0 {
            assert(search_matches(sources, query) == sources);
        } else {
            let pred = |s: LogSourceView| contains_text(lowercase_text(s.name), q);
            assert(pred(sources[i]));
            sources.lemma_filter_contains(pred, i);
        }
    }
}

/// While text is being typed (the "add server" form, the two search
/// prompts and the path prompt), an unmodified character key, `t` included,
/// is typed: it is inserted at the cursor of the input being edited, the
/// colour scheme and the settings stay as they were, and no work is asked for.
pub proof fn lemma_prompts_take_characters(a: App, b: App, c: char, cmd: Command)
    requires
        a.mode == AppMode::SshForm || a.mode == AppMode::SearchPrompt || a.mode
            == AppMode::LogSearchPrompt || a.mode == AppMode::GotoPrompt,
        key_step(a, KeyPress { code: KeyCode::Char(c), modifiers: Modifiers::Plain }, b, cmd),
    ensures
        cmd is Nothing,
        b.color_scheme == a.color_scheme,
        b.mode == a.mode,
        a.mode == AppMode::SshForm ==> b.config == a.config && b.ssh_form.active_field
            == a.ssh_form.active_field && b.ssh_form.inputs@[a.ssh_form.active_field as int].value@
            == a.ssh_form.inputs@[a.ssh_form.active_field as int].value@.insert(
            a.ssh_form.inputs@[a.ssh_form.active_field as int].cursor as int,
            c,
        ),
        a.mode == AppMode::SearchPrompt || a.mode == AppMode::LogSearchPrompt ==> b.config
            == a.config && b.search_input.value@ == a.search_input.value@.insert(
            a.search_input.cursor as int,
            c,
        ),
        a.mode == AppMode::GotoPrompt ==> b.config == a.config && b.goto_input.value@
            == a.goto_input.value@.insert(a.goto_input.cursor as int, c),
{
}

/// Scrolling the open log: Up and `k` move one line up and PageUp twenty,
/// stopping at the top; Down and `j` move one line down and PageDown twenty,
/// stopping at the largest position; Home goes to the top and End to the
/// last line. The log's lines and source stay, and no work is asked for.
pub proof fn lemma_log_view_scrolls(a: App, b: App, key: KeyPress, cmd: Command)
    requires
        a.mode == AppMode::LogViewer,
        a.active_log is Some,
        key.modifiers == Modifiers::Plain,
        key_step(a, key, b, cmd),
        key.code == KeyCode::Up || key.code == KeyCode::Char('k') || key.code == KeyCode::Down
            || key.code == KeyCode::Char('j') || key.code == KeyCode::PageUp || key.code
            == KeyCode::PageDown || key.code == KeyCode::Home || key.code == KeyCode::End,
    ensures
        ({
            let old_log = a.active_log.unwrap();
            let s = old_log.scroll as int;
            let n = old_log.lines@.len() as int;
            &&& cmd is Nothing
            &&& b.mode == AppMode::LogViewer
            &&& b.active_log matches Some(new_log)
            &&& new_log.lines == old_log.lines
            &&& new_log.source == old_log.source
            &&& (key.code == KeyCode::Up || key.code == KeyCode::Char('k')) ==> new_log.scroll == (
            if s >= 1 {
                s - 1
            } else {
                0
            })
            &&& key.code == KeyCode::PageUp ==> new_log.scroll == (if s >= 20 {
                s - 20
            } else {
                0
            })
            &&& (key.code == KeyCode::Down || key.code == KeyCode::Char('j')) ==> new_log.scroll
                == (if s + 1 <= 65535 {
                s + 1
            } else {
                65535
            })
            &&& key.code == KeyCode::PageDown ==> new_log.scroll == (if s + 20 <= 65535 {
                s + 20
            } else {
                65535
            })
            &&& key.code == KeyCode::Home ==> new_log.scroll == 0
            &&& key.code == KeyCode::End ==> new_log.scroll == (if n % 65536 == 0 {
                0
            } else {
                n % 65536 - 1
            })
        }),
{
}

/// Pressing `t` three times (outside the typing modes) comes back to the
/// colour scheme one started with; each press changes it.
pub proof fn lemma_theme_key_cycles(a: App, b: App, c: App, d: App, c1: Command, c2: Command, c3: Command)
    requires
        theme_step(a, b, c1),
        theme_step(b, c, c2),
        theme_step(c, d, c3),
    ensures
        d.color_scheme == a.color_scheme,
        b.color_scheme != a.color_scheme,
        d.config.color_scheme == Some(a.color_scheme),
{
    crate::theme::lemma_next_cycles(a.color_scheme);
}

fn copy_sources(v: &Vec<LogSource>) -> (r: Vec<LogSource>)
    ensures
        r@ == v@,
{
    let mut r: Vec<LogSource> = Vec::new();
    for i in 0..v.len()
        invariant
            r@ == v@.take(i as int),
    {
        r.push(v[i].clone());
        proof {
            assert(v@.take(i + 1) =~= v@.take(i as int).push(v@[i as int]));
        }
    }
    proof {
        assert(v@.take(v.len() as int) =~= v@);
    }
    r
}

// ---------------------------------------------------------------------------
// Key presses: what each one does, mode by mode
// ---------------------------------------------------------------------------

/// Ctrl+C quits from anywhere.
pub open spec fn is_quit_chord(key: KeyPress) -> bool {
    key.modifiers == Modifiers::Control && (key.code == KeyCode::Char('c') || key.code
        == KeyCode::Char('C'))
}

/// The modes in which keys are typed into a text input.
pub open spec fn is_typing_mode(m: AppMode) -> bool {
    m == AppMode::SearchPrompt || m == AppMode::LogSearchPrompt || m == AppMode::SshForm || m
        == AppMode::GotoPrompt
}

/// An unmodified `t` outside the typing modes cycles the colour scheme.
pub open spec fn is_theme_key(m: AppMode, key: KeyPress) -> bool {
    !is_typing_mode(m) && key.modifiers == Modifiers::Plain && key.code == KeyCode::Char('t')
}

/// Switching to the next colour scheme, which is also saved.
pub open spec fn theme_step(a: App, b: App, cmd: Command) -> bool {
    &&& b == App {
        color_scheme: next_scheme(a.color_scheme),
        config: AppConfig { color_scheme: Some(next_scheme(a.color_scheme)), ..a.config },
        ..a
    }
    &&& cmd is SaveConfig
}

/// The number of rows of the server list: the local machine, then each
/// server (the count stops at the largest `usize`).
pub open spec fn server_rows(n: nat) -> usize {
    if n < usize::MAX {
        (n + 1) as usize
    } else {
        usize::MAX
    }
}

/// The row that `Enter` acts on: the highlighted one, or the first.
pub open spec fn selected_row(sel: Option<usize>) -> usize {
    match sel {
        Some(i) => i,
        None => 0,
    }
}

/// A key press on the server list.
pub open spec fn server_select_step(a: App, key: KeyPress, b: App, cmd: Command) -> bool {
    let rows = server_rows(a.config.servers@.len());
    match key.code {
        KeyCode::Esc | KeyCode::Char('q') => b == a && cmd is Quit,
        KeyCode::Enter => if selected_row(a.selected) == 0 {
            b == (App { ssh_connected: false, loading: LoadingState::Scanning, ..a })
                && cmd is DiscoverLocal
        } else {
            b == (App { loading: LoadingState::Connecting, ..a }) && cmd == Command::Connect(
                (selected_row(a.selected) - 1) as usize,
            )
        },
        KeyCode::Char('n') | KeyCode::Char('a') => b == (App {
            mode: AppMode::SshForm,
            ssh_form: b.ssh_form,
            ..a
        }) && b.ssh_form.is_blank() && cmd is Nothing,
        KeyCode::Up => b == (App { selected: cursor_up_of(a.selected, rows), ..a }) && cmd is Nothing,
        KeyCode::Down => b == (App { selected: cursor_down_of(a.selected, rows), ..a })
            && cmd is Nothing,
        _ => b == a && cmd is Nothing,
    }
}

/// `y` is `x` after the editing request `req`.
pub open spec fn input_edited(x: TextInput, y: TextInput, req: EditRequest) -> bool {
    &&& y.wf()
    &&& (y.value@, y.cursor as nat) == edit_result_of(x.value@, x.cursor as nat, req)
    &&& crate::input::edit_facts(x.value@, x.cursor as nat, req, y.value@, y.cursor as nat)
}

/// The active field of the form is edited by `req`; nothing else changes.
pub open spec fn form_edit_step(a: App, b: App, req: EditRequest) -> bool {
    let f = a.ssh_form.active_field as int;
    &&& b == (App { ssh_form: b.ssh_form, ..a })
    &&& b.ssh_form.active_field == a.ssh_form.active_field
    &&& b.ssh_form.inputs@.len() == a.ssh_form.inputs@.len()
    &&& forall|j: int| 0 <= j < b.ssh_form.inputs@.len() && j != f ==> b.ssh_form.inputs@[j]
        == a.ssh_form.inputs@[j]
    &&& input_edited(a.ssh_form.inputs@[f], b.ssh_form.inputs@[f], req)
}

/// The active field of the form becomes `field`; nothing else changes.
pub open spec fn form_focus_step(a: App, b: App, field: usize) -> bool {
    b == (App {
        ssh_form: SshFormState { inputs: a.ssh_form.inputs, active_field: field },
        ..a
    })
}

/// The texts of the form's fields.
pub open spec fn form_values(f: SshFormState) -> Seq<Seq<char>> {
    f.inputs@.map_values(|i: TextInput| i.value@)
}

/// A key press on the "add server" form.
pub open spec fn ssh_form_step(a: App, key: KeyPress, b: App, cmd: Command) -> bool {
    let af = a.ssh_form.active_field;
    match key.code {
        KeyCode::Esc => b == (App { mode: AppMode::ServerSelect, ..a }) && cmd is Nothing,
        KeyCode::Up | KeyCode::BackTab => form_focus_step(
            a,
            b,
            if af > 0 {
                (af - 1) as usize
            } else {
                af
            },
        ) && cmd is Nothing,
        KeyCode::Down | KeyCode::Tab => form_focus_step(
            a,
            b,
            if af < 4 {
                (af + 1) as usize
            } else {
                af
            },
        ) && cmd is Nothing,
        KeyCode::Enter => {
            let n = a.config.servers@.len();
            &&& b == (App { mode: AppMode::ServerSelect, config: b.config, ..a })
            &&& b.config.local_paths == a.config.local_paths
            &&& b.config.color_scheme == a.config.color_scheme
            &&& b.config.servers@.len() == n + 1
            &&& b.config.servers@.take(n as int) == a.config.servers@
            &&& form_server_ok(form_values(a.ssh_form), b.config.servers@[n as int])
            &&& cmd is SaveConfig
        },
        KeyCode::Char(c) => form_edit_step(a, b, EditRequest::InsertChar(c)) && cmd is Nothing,
        KeyCode::Backspace => form_edit_step(a, b, EditRequest::DeletePrevChar) && cmd is Nothing,
        KeyCode::Delete => form_edit_step(a, b, EditRequest::DeleteNextChar) && cmd is Nothing,
        KeyCode::Left => form_edit_step(a, b, EditRequest::GoToPrevChar) && cmd is Nothing,
        KeyCode::Right => form_edit_step(a, b, EditRequest::GoToNextChar) && cmd is Nothing,
        _ => b == a && cmd is Nothing,
    }
}

/// The number of rows of the file explorer's list: the directory's entries
/// while a directory is open, else the filtered sources.
pub open spec fn explorer_rows(a: App) -> usize {
    if a.current_dir is Some {
        a.fs_entries@.len() as usize
    } else {
        a.filtered_sources@.len() as usize
    }
}

/// Where "go to path" starts: the open directory, else the home directory,
/// else `/`.
pub open spec fn goto_start(a: App) -> Seq<char> {
    match a.current_dir {
        Some(d) => d@,
        None => match a.home_dir {
            Some(h) => h@,
            None => seq!['/'],
        },
    }
}

/// `Enter` on the file explorer: on an open directory's entry, a
/// sub-directory is listed and a log is opened; otherwise the highlighted
/// filtered source is opened; an empty highlight or a row past the end does
/// nothing.
pub open spec fn open_selected_step(a: App, b: App, cmd: Command) -> bool {
    &&& b == a
    &&& match a.selected {
        None => cmd is Nothing,
        Some(i) => if a.current_dir is Some {
            if i < a.fs_entries@.len() {
                match a.fs_entries@[i as int] {
                    FsEntry::Directory(p) => cmd == Command::ListDir(p),
                    FsEntry::LogFile(s) => cmd == Command::OpenLog(s),
                }
            } else {
                cmd is Nothing
            }
        } else if i < a.filtered_sources@.len() {
            cmd == Command::OpenLog(a.filtered_sources@[i as int])
        } else {
            cmd is Nothing
        },
    }
}

/// A key press on the file explorer.
pub open spec fn file_explorer_step(a: App, key: KeyPress, b: App, cmd: Command) -> bool {
    match key.code {
        KeyCode::Esc => b == (App {
            status_message: None,
            current_dir: None,
            fs_entries: b.fs_entries,
            mode: AppMode::ServerSelect,
            ..a
        }) && b.fs_entries@.len() == 0 && cmd is Nothing,
        KeyCode::Char('/') => b == (App { mode: AppMode::SearchPrompt, ..a }) && cmd is Nothing,
        KeyCode::Enter => open_selected_step(a, b, cmd),
        KeyCode::Up => b == (App { selected: cursor_up_of(a.selected, explorer_rows(a)), ..a })
            && cmd is Nothing,
        KeyCode::Down => b == (App { selected: cursor_down_of(a.selected, explorer_rows(a)), ..a })
            && cmd is Nothing,
        KeyCode::Char('-') | KeyCode::Backspace => match a.current_dir {
            None => b == a && cmd is Nothing,
            Some(d) => match path_parent_of(d@) {
                Some(p) => b == a && (cmd matches Command::ListDir(q) && q@ == p),
                None => b == (App {
                    current_dir: None,
                    fs_entries: b.fs_entries,
                    selected: Some(0usize),
                    ..a
                }) && b.fs_entries@.len() == 0 && cmd is Nothing,
            },
        },
        KeyCode::Char('s') => b == a && cmd == Command::ShallowScan {
            dir: a.current_dir,
            relist: a.current_dir is Some,
        },
        KeyCode::Char('g') => b == (App { goto_input: b.goto_input, mode: AppMode::GotoPrompt, ..a })
            && b.goto_input.wf() && b.goto_input.value@ == goto_start(a) && b.goto_input.cursor
            == goto_start(a).len() && cmd is Nothing,
        _ => b == a && cmd is Nothing,
    }
}

/// A key press fed to the search input: the input is edited, and when that
/// counts as a change the sources are filtered again.
pub open spec fn search_edit_step(a: App, key: KeyPress, b: App) -> bool {
    let changed = prompt_changed(a.search_input, b.search_input);
    &&& prompt_step(a.search_input, key, b.search_input, changed)
    &&& b.search_input.wf()
    &&& if changed {
        &&& b == (App {
            search_input: b.search_input,
            filtered_sources: b.filtered_sources,
            selected: Some(0usize),
            ..a
        })
        &&& source_views(b.filtered_sources@) == search_matches(
            source_views(a.sources@),
            b.search_input.value@,
        )
    } else {
        b == (App { search_input: b.search_input, ..a })
    }
}

/// A key press on the source search prompt.
pub open spec fn search_prompt_step(a: App, key: KeyPress, b: App, cmd: Command) -> bool {
    match key.code {
        KeyCode::Esc | KeyCode::Enter => b == (App { mode: AppMode::FileExplorer, ..a })
            && cmd is Nothing,
        _ => search_edit_step(a, key, b) && cmd is Nothing,
    }
}

/// A key press on the "go to path" prompt.
pub open spec fn goto_prompt_step(a: App, key: KeyPress, b: App, cmd: Command) -> bool {
    match key.code {
        KeyCode::Esc => b == (App { mode: AppMode::FileExplorer, ..a }) && cmd is Nothing,
        KeyCode::Enter => b == a && (cmd matches Command::Goto(raw) && raw@ == trimmed(
            a.goto_input.value@,
        )),
        KeyCode::Tab => b == a && (cmd matches Command::TabComplete(t) && t@
            == a.goto_input.value@),
        _ => b == (App { goto_input: b.goto_input, ..a }) && b.goto_input.wf() && prompt_step(
            a.goto_input,
            key,
            b.goto_input,
            prompt_changed(a.goto_input, b.goto_input),
        ) && cmd is Nothing,
    }
}

/// The open log is scrolled to `f` of its position; with no open log
/// nothing changes.
pub open spec fn scroll_step(a: App, b: App, f: spec_fn(u16) -> u16) -> bool {
    &&& b == (App { active_log: b.active_log, ..a })
    &&& match a.active_log {
        None => b.active_log is None,
        Some(l) => b.active_log matches Some(m) && m.source == l.source && m.lines == l.lines
            && m.scroll == f(l.scroll),
    }
}

/// `x` less `n`, stopping at 0.
pub open spec fn sat_sub(x: u16, n: u16) -> u16 {
    if x >= n {
        (x - n) as u16
    } else {
        0
    }
}

/// `x` plus `n`, stopping at the largest `u16`.
pub open spec fn sat_add(x: u16, n: u16) -> u16 {
    if x + n <= u16::MAX {
        (x + n) as u16
    } else {
        u16::MAX
    }
}

/// The scroll position of the last line of `n` lines.
pub open spec fn end_scroll(n: nat) -> u16 {
    if n % 65536 == 0 {
        0
    } else {
        (n % 65536 - 1) as u16
    }
}

/// A key press on the log view.
pub open spec fn log_viewer_step(a: App, key: KeyPress, b: App, cmd: Command) -> bool {
    match key.code {
        KeyCode::Esc => b == (App {
            active_log: None,
            export_message: None,
            mode: AppMode::FileExplorer,
            ..a
        }) && cmd is Nothing,
        KeyCode::Char('/') => b == (App {
            export_message: None,
            search_input: b.search_input,
            mode: AppMode::LogSearchPrompt,
            ..a
        }) && b.search_input.wf() && b.search_input.value@.len() == 0 && cmd is Nothing,
        KeyCode::Char('r') => b == (App { export_message: None, ..a }) && match a.active_log {
            Some(l) => cmd == Command::RefreshLog(l.source),
            None => cmd is Nothing,
        },
        KeyCode::Char('e') => b == a && (cmd matches Command::Export { lines, query } && texts(
            lines@,
        ) == match a.active_log {
            Some(l) => texts(l.lines@),
            None => Seq::<Seq<char>>::empty(),
        } && query@ == a.search_input.value@),
        KeyCode::Up | KeyCode::Char('k') => scroll_step(a, b, |x: u16| sat_sub(x, 1)) && cmd is Nothing,
        KeyCode::Down | KeyCode::Char('j') => scroll_step(a, b, |x: u16| sat_add(x, 1))
            && cmd is Nothing,
        KeyCode::PageUp => scroll_step(a, b, |x: u16| sat_sub(x, 20)) && cmd is Nothing,
        KeyCode::PageDown => scroll_step(a, b, |x: u16| sat_add(x, 20)) && cmd is Nothing,
        KeyCode::Home => scroll_step(a, b, |x: u16| 0u16) && cmd is Nothing,
        KeyCode::End => scroll_step(
            a,
            b,
            |x: u16|
                end_scroll(
                    match a.active_log {
                        Some(l) => l.lines@.len(),
                        None => 0,
                    },
                ),
        ) && cmd is Nothing,
        _ => b == (App { export_message: None, ..a }) && cmd is Nothing,
    }
}

/// A key press on the log search prompt.
pub open spec fn log_search_step(a: App, key: KeyPress, b: App, cmd: Command) -> bool {
    match key.code {
        KeyCode::Esc => b == (App { mode: AppMode::LogViewer, search_input: b.search_input, ..a })
            && b.search_input.wf() && b.search_input.value@.len() == 0 && cmd is Nothing,
        KeyCode::Enter => b == (App { mode: AppMode::LogViewer, ..a }) && cmd is Nothing,
        _ => b == (App { search_input: b.search_input, ..a }) && b.search_input.wf() && prompt_step(
            a.search_input,
            key,
            b.search_input,
            prompt_changed(a.search_input, b.search_input),
        ) && cmd is Nothing,
    }
}

/// What a key press does: Ctrl+C quits, `t` outside the typing modes
/// cycles the colour scheme, and otherwise the current mode decides.
pub open spec fn key_step(a: App, key: KeyPress, b: App, cmd: Command) -> bool {
    if is_quit_chord(key) {
        b == a && cmd is Quit
    } else if is_theme_key(a.mode, key) {
        theme_step(a, b, cmd)
    } else {
        match a.mode {
            AppMode::ServerSelect => server_select_step(a, key, b, cmd),
            AppMode::SshForm => ssh_form_step(a, key, b, cmd),
            AppMode::FileExplorer => file_explorer_step(a, key, b, cmd),
            AppMode::SearchPrompt => search_prompt_step(a, key, b, cmd),
            AppMode::GotoPrompt => goto_prompt_step(a, key, b, cmd),
            AppMode::LogViewer => log_viewer_step(a, key, b, cmd),
            AppMode::LogSearchPrompt => log_search_step(a, key, b, cmd),
        }
    }
}

impl App {
    /// The state's well-formedness: well-formed inputs and form.
    pub open spec fn wf(&self) -> bool {
        &&& self.search_input.wf()
        &&& self.goto_input.wf()
        &&& self.ssh_form.wf()
    }

    /// The browser as it starts: on the server list with the first row
    /// highlighted, showing `sources` unfiltered, in the saved colour scheme
    /// (the default one when none is saved).
    pub fn new(config: AppConfig, sources: Vec<LogSource>, home_dir: Option<String>) -> (r: App)
        ensures
            r.wf(),
            r.running,
            r.mode == AppMode::ServerSelect,
            r.color_scheme == match config.color_scheme {
                Some(s) => s,
                None => ColorScheme::Default,
            },
            r.config == config,
            !r.ssh_connected,
            r.sources == sources,
            r.filtered_sources@ == sources@,
            r.selected == Some(0usize),
            r.current_dir is None,
            r.fs_entries@.len() == 0,
            r.search_input.value@.len() == 0,
            r.goto_input.value@.len() == 0,
            r.ssh_form.is_blank(),
            r.active_log is None,
            r.loading == LoadingState::Idle,
            r.loading_frame == 0,
            r.status_message is None,
            r.export_message is None,
            r.home_dir == home_dir,
    {
        let color_scheme = match config.color_scheme {
            Some(s) => s,
            None => ColorScheme::default(),
        };
        let filtered_sources = copy_sources(&sources);
        App {
            running: true,
            mode: AppMode::ServerSelect,
            config,
            ssh_connected: false,
            sources,
            filtered_sources,
            selected: Some(0),
            current_dir: None,
            fs_entries: Vec::new(),
            search_input: TextInput::new(),
            goto_input: TextInput::new(),
            ssh_form: SshFormState::default(),
            active_log: None,
            color_scheme,
            loading: LoadingState::Idle,
            loading_frame: 0,
            status_message: None,
            export_message: None,
            home_dir,
        }
    }

    /// Filters the sources by the search text and highlights the first row.
    fn update_search(&mut self)
        ensures
            source_views(final(self).filtered_sources@) == search_matches(
                source_views(old(self).sources@),
                old(self).search_input.value@,
            ),
            final(self).selected == Some(0usize),
            *final(self) == (App {
                filtered_sources: final(self).filtered_sources,
                selected: Some(0usize),
                ..*old(self)
            }),
    {
        let q = to_lowercase(self.search_input.value.as_str());
        if q.as_str().is_empty() {
            self.filtered_sources = copy_sources(&self.sources);
        } else {
            let ghost pred = |s: LogSourceView| contains_text(lowercase_text(s.name), q@);
            let ghost sv = source_views(self.sources@);
            let mut out: Vec<LogSource> = Vec::new();
            for i in 0..self.sources.len()
                invariant
                    sv == source_views(self.sources@),
                    pred == (|s: LogSourceView| contains_text(lowercase_text(s.name), q@)),
                    source_views(out@) == sv.take(i as int).filter(pred),
            {
                let name = to_lowercase(self.sources[i].name.as_str());
                let keep = text_contains(name.as_str(), q.as_str());
                proof {
                    let t = sv.take(i as int);
                    assert(sv.take(i + 1) =~= t.push(sv[i as int]));
                    t.lemma_filter_push(sv[i as int], pred);
                }
                if keep {
                    let ghost before = source_views(out@);
                    out.push(self.sources[i].clone());
                    proof {
                        assert(source_views(out@) =~= before.push(sv[i as int]));
                    }
                }
            }
            proof {
                assert(sv.take(self.sources.len() as int) =~= sv);
            }
            self.filtered_sources = out;
        }
        self.selected = Some(0);
        proof {
            if q@.len() == 0 {
                assert(source_views(self.filtered_sources@) =~= source_views(self.sources@));
            }
        }
    }

    /// Moves the highlight up in a list of `max` rows.
    pub fn cursor_up(&mut self, max: usize)
        ensures
            *final(self) == (App { selected: cursor_up_of(old(self).selected, max), ..*old(self) }),
    {
        if max == 0 {
            return ;
        }
        let i = match self.selected {
            Some(i) => {
                if i == 0 {
                    0
                } else {
                    i - 1
                }
            },
            None => 0,
        };
        self.selected = Some(i);
    }

    /// Moves the highlight down in a list of `max` rows.
    pub fn cursor_down(&mut self, max: usize)
        ensures
            *final(self) == (App { selected: cursor_down_of(old(self).selected, max), ..*old(self) }),
    {
        if max == 0 {
            return ;
        }
        let i = match self.selected {
            Some(i) => {
                if i < max - 1 {
                    i + 1
                } else {
                    i
                }
            },
            None => 0,
        };
        self.selected = Some(i);
    }
    fn key_server_select(&mut self, key: KeyPress) -> (cmd: Command)
        requires
            old(self).wf(),
        ensures
            final(self).wf(),
            server_select_step(*old(self), key, *final(self), cmd),
    {
        let n = self.config.servers.len();
        let rows = if n < usize::MAX {
            n + 1
        } else {
            n
        };
        match key.code {
            KeyCode::Esc | KeyCode::Char('q') => Command::Quit,
            KeyCode::Enter => {
                let sel = match self.selected {
                    Some(i) => i,
                    None => 0,
                };
                if sel == 0 {
                    self.ssh_connected = false;
                    self.loading = LoadingState::Scanning;
                    Command::DiscoverLocal
                } else {
                    self.loading = LoadingState::Connecting;
                    Command::Connect(sel - 1)
                }
            },
            KeyCode::Char('n') | KeyCode::Char('a') => {
                self.mode = AppMode::SshForm;
                self.ssh_form = SshFormState::default();
                Command::Nothing
            },
            KeyCode::Up => {
                self.cursor_up(rows);
                Command::Nothing
            },
            KeyCode::Down => {
                self.cursor_down(rows);
                Command::Nothing
            },
            _ => Command::Nothing,
        }
    }

    fn form_edit(&mut self, req: EditRequest)
        requires
            old(self).wf(),
        ensures
            final(self).wf(),
            form_edit_step(*old(self), *final(self), req),
    {
        let f = self.ssh_form.active_field;
        let mut inp = self.ssh_form.inputs.remove(f);
        proof {
            assert(inp == old(self).ssh_form.inputs@[f as int]);
        }
        inp.handle(req);
        self.ssh_form.inputs.insert(f, inp);
        proof {
            let a = old(self).ssh_form.inputs@;
            let b = self.ssh_form.inputs@;
            assert forall|j: int| 0 <= j < b.len() && j != f implies b[j] == a[j] by {}
            assert forall|i: int| 0 <= i < FORM_FIELDS implies (#[trigger] b[i]).wf() by {
                if i != f {
                    assert(b[i] == a[i]);
                }
            }
        }
    }

    fn key_ssh_form(&mut self, key: KeyPress) -> (cmd: Command)
        requires
            old(self).wf(),
        ensures
            final(self).wf(),
            ssh_form_step(*old(self), key, *final(self), cmd),
    {
        match key.code {
            KeyCode::Esc => {
                self.mode = AppMode::ServerSelect;
                Command::Nothing
            },
            KeyCode::Up | KeyCode::BackTab => {
                if self.ssh_form.active_field > 0 {
                    self.ssh_form.active_field = self.ssh_form.active_field - 1;
                }
                Command::Nothing
            },
            KeyCode::Down | KeyCode::Tab => {
                if self.ssh_form.active_field < 4 {
                    self.ssh_form.active_field = self.ssh_form.active_field + 1;
                }
                Command::Nothing
            },
            KeyCode::Enter => {
                let server = server_from_form(
                    self.ssh_form.inputs[0].value(),
                    self.ssh_form.inputs[1].value(),
                    self.ssh_form.inputs[2].value(),
                    self.ssh_form.inputs[3].value(),
                    self.ssh_form.inputs[4].value(),
                );
                proof {
                    assert(seq![
                        self.ssh_form.inputs@[0].value@,
                        self.ssh_form.inputs@[1].value@,
                        self.ssh_form.inputs@[2].value@,
                        self.ssh_form.inputs@[3].value@,
                        self.ssh_form.inputs@[4].value@,
                    ] =~= form_values(self.ssh_form));
                }
                let ghost before = self.config.servers@;
                self.config.servers.push(server);
                proof {
                    assert(self.config.servers@.take(before.len() as int) =~= before);
                }
                self.mode = AppMode::ServerSelect;
                Command::SaveConfig
            },
            KeyCode::Char(c) => {
                self.form_edit(EditRequest::InsertChar(c));
                Command::Nothing
            },
            KeyCode::Backspace => {
                self.form_edit(EditRequest::DeletePrevChar);
                Command::Nothing
            },
            KeyCode::Delete => {
                self.form_edit(EditRequest::DeleteNextChar);
                Command::Nothing
            },
            KeyCode::Left => {
                self.form_edit(EditRequest::GoToPrevChar);
                Command::Nothing
            },
            KeyCode::Right => {
                self.form_edit(EditRequest::GoToNextChar);
                Command::Nothing
            },
            _ => Command::Nothing,
        }
    }

    fn open_selected(&mut self) -> (cmd: Command)
        ensures
            open_selected_step(*old(self), *final(self), cmd),
    {
        match self.selected {
            None => Command::Nothing,
            Some(i) => {
                if self.current_dir.is_some() {
                    if i < self.fs_entries.len() {
                        match &self.fs_entries[i] {
                            FsEntry::Directory(p) => Command::ListDir(p.clone()),
                            FsEntry::LogFile(s) => Command::OpenLog(s.clone()),
                        }
                    } else {
                        Command::Nothing
                    }
                } else if i < self.filtered_sources.len() {
                    Command::OpenLog(self.filtered_sources[i].clone())
                } else {
                    Command::Nothing
                }
            },
        }
    }

    fn key_file_explorer(&mut self, key: KeyPress) -> (cmd: Command)
        requires
            old(self).wf(),
        ensures
            final(self).wf(),
            file_explorer_step(*old(self), key, *final(self), cmd),
    {
        let rows = if self.current_dir.is_some() {
            self.fs_entries.len()
        } else {
            self.filtered_sources.len()
        };
        match key.code {
            KeyCode::Esc => {
                self.status_message = None;
                self.current_dir = None;
                self.fs_entries = Vec::new();
                self.mode = AppMode::ServerSelect;
                Command::Nothing
            },
            KeyCode::Char('/') => {
                self.mode = AppMode::SearchPrompt;
                Command::Nothing
            },
            KeyCode::Enter => self.open_selected(),
            KeyCode::Up => {
                self.cursor_up(rows);
                Command::Nothing
            },
            KeyCode::Down => {
                self.cursor_down(rows);
                Command::Nothing
            },
            KeyCode::Char('-') | KeyCode::Backspace => {
                match &self.current_dir {
                    None => Command::Nothing,
                    Some(d) => {
                        match path_parent(d.as_str()) {
                            Some(p) => Command::ListDir(p),
                            None => {
                                self.current_dir = None;
                                self.fs_entries = Vec::new();
                                self.selected = Some(0);
                                Command::Nothing
                            },
                        }
                    },
                }
            },
            KeyCode::Char('s') => {
                let relist = self.current_dir.is_some();
                let dir = match &self.current_dir {
                    Some(d) => Some(d.clone()),
                    None => None,
                };
                Command::ShallowScan { dir, relist }
            },
            KeyCode::Char('g') => {
                let start = match &self.current_dir {
                    Some(d) => d.clone(),
                    None => match &self.home_dir {
                        Some(h) => h.clone(),
                        None => {
                            let s = String::from_str("/");
                            proof {
                                reveal_strlit("/");
                                assert(s@ =~= seq!['/']);
                            }
                            s
                        },
                    },
                };
                let mut input = TextInput::new();
                input.set_by_typing(start.as_str());
                self.goto_input = input;
                self.mode = AppMode::GotoPrompt;
                Command::Nothing
            },
            _ => Command::Nothing,
        }
    }

    fn search_edit(&mut self, key: KeyPress)
        requires
            old(self).wf(),
        ensures
            final(self).wf(),
            search_edit_step(*old(self), key, *final(self)),
    {
        let changed = handle_search_input(&mut self.search_input, key);
        if changed {
            self.update_search();
        }
    }

    fn key_search_prompt(&mut self, key: KeyPress) -> (cmd: Command)
        requires
            old(self).wf(),
        ensures
            final(self).wf(),
            search_prompt_step(*old(self), key, *final(self), cmd),
    {
        match key.code {
            KeyCode::Esc | KeyCode::Enter => {
                self.mode = AppMode::FileExplorer;
            },
            _ => {
                self.search_edit(key);
            },
        }
        Command::Nothing
    }

    fn key_goto_prompt(&mut self, key: KeyPress) -> (cmd: Command)
        requires
            old(self).wf(),
        ensures
            final(self).wf(),
            goto_prompt_step(*old(self), key, *final(self), cmd),
    {
        match key.code {
            KeyCode::Esc => {
                self.mode = AppMode::FileExplorer;
                Command::Nothing
            },
            KeyCode::Enter => Command::Goto(trim_text(self.goto_input.value())),
            KeyCode::Tab => Command::TabComplete(String::from_str(self.goto_input.value())),
            _ => {
                handle_search_input(&mut self.goto_input, key);
                Command::Nothing
            },
        }
    }

    fn scroll_log(&mut self, how: u8, n: u16) -> (cmd: Command)
        requires
            how < 4,
        ensures
            cmd is Nothing,
            how == 0 ==> scroll_step(*old(self), *final(self), |x: u16| sat_sub(x, n)),
            how == 1 ==> scroll_step(*old(self), *final(self), |x: u16| sat_add(x, n)),
            how == 2 ==> scroll_step(*old(self), *final(self), |x: u16| 0u16),
            how == 3 ==> scroll_step(
                *old(self),
                *final(self),
                |x: u16|
                    end_scroll(
                        match old(self).active_log {
                            Some(l) => l.lines@.len(),
                            None => 0,
                        },
                    ),
            ),
    {
        match self.active_log.take() {
            Some(mut log) => {
                if how == 0 {
                    log.scroll_up(n);
                } else if how == 1 {
                    log.scroll_down(n);
                } else if how == 2 {
                    log.scroll_to_top();
                } else {
                    log.scroll_to_end();
                }
                self.active_log = Some(log);
            },
            None => {},
        }
        Command::Nothing
    }

    fn key_log_viewer(&mut self, key: KeyPress) -> (cmd: Command)
        requires
            old(self).wf(),
        ensures
            final(self).wf(),
            log_viewer_step(*old(self), key, *final(self), cmd),
    {
        match key.code {
            KeyCode::Esc => {
                self.active_log = None;
                self.export_message = None;
                self.mode = AppMode::FileExplorer;
                Command::Nothing
            },
            KeyCode::Char('/') => {
                self.export_message = None;
                self.search_input.reset();
                self.mode = AppMode::LogSearchPrompt;
                Command::Nothing
            },
            KeyCode::Char('r') => {
                self.export_message = None;
                match &self.active_log {
                    Some(l) => Command::RefreshLog(l.source.clone()),
                    None => Command::Nothing,
                }
            },
            KeyCode::Char('e') => {
                let lines = match &self.active_log {
                    Some(l) => copy_strings(&l.lines),
                    None => {
                        let v: Vec<String> = Vec::new();
                        proof {
                            assert(texts(v@) =~= Seq::<Seq<char>>::empty());
                        }
                        v
                    },
                };
                proof {
                    if let Some(l) = &self.active_log {
                        assert(texts(lines@) =~= crate::config::string_views(lines@));
                        assert(texts(l.lines@) =~= crate::config::string_views(l.lines@));
                    }
                }
                let query = String::from_str(self.search_input.value());
                Command::Export { lines, query }
            },
            KeyCode::Up | KeyCode::Char('k') => self.scroll_log(0, 1),
            KeyCode::Down | KeyCode::Char('j') => self.scroll_log(1, 1),
            KeyCode::PageUp => self.scroll_log(0, 20),
            KeyCode::PageDown => self.scroll_log(1, 20),
            KeyCode::Home => self.scroll_log(2, 0),
            KeyCode::End => self.scroll_log(3, 0),
            _ => {
                if self.export_message.is_some() {
                    self.export_message = None;
                }
                Command::Nothing
            },
        }
    }

    fn key_log_search(&mut self, key: KeyPress) -> (cmd: Command)
        requires
            old(self).wf(),
        ensures
            final(self).wf(),
            log_search_step(*old(self), key, *final(self), cmd),
    {
        match key.code {
            KeyCode::Esc => {
                self.mode = AppMode::LogViewer;
                self.search_input.reset();
            },
            KeyCode::Enter => {
                self.mode = AppMode::LogViewer;
            },
            _ => {
                handle_search_input(&mut self.search_input, key);
            },
        }
        Command::Nothing
    }

    /// Handles a key press (see `key_step`) and names the outside work to do.
    pub fn handle_key_event(&mut self, key: KeyPress) -> (cmd: Command)
        requires
            old(self).wf(),
        ensures
            final(self).wf(),
            key_step(*old(self), key, *final(self), cmd),
    {
        if key.modifiers == Modifiers::Control && (key.code == KeyCode::Char('c') || key.code
            == KeyCode::Char('C')) {
            return Command::Quit;
        }
        let typing = match self.mode {
            AppMode::SearchPrompt | AppMode::LogSearchPrompt | AppMode::SshForm
            | AppMode::GotoPrompt => true,
            _ => false,
        };
        if !typing && key.modifiers == Modifiers::Plain && key.code == KeyCode::Char('t') {
            let next = self.color_scheme.next();
            self.color_scheme = next;
            self.config.color_scheme = Some(next);
            return Command::SaveConfig;
        }
        match self.mode {
            AppMode::ServerSelect => self.key_server_select(key),
            AppMode::SshForm => self.key_ssh_form(key),
            AppMode::FileExplorer => self.key_file_explorer(key),
            AppMode::SearchPrompt => self.key_search_prompt(key),
            AppMode::GotoPrompt => self.key_goto_prompt(key),
            AppMode::LogViewer => self.key_log_viewer(key),
            AppMode::LogSearchPrompt => self.key_log_search(key),
        }
    }
}

impl App {
    /// Handles an event: a tick advances the loading spinner (through ten
    /// frames) while something is loading, a key press is handled by
    /// `handle_key_event`, and `Quit` stops the browser.
    pub fn handle_events(&mut self, event: AppEvent) -> (cmd: Command)
        requires
            old(self).wf(),
        ensures
            final(self).wf(),
            match event {
                AppEvent::Tick => *final(self) == (App {
                    loading_frame: if old(self).loading != LoadingState::Idle {
                        ((if old(self).loading_frame == 255 {
                            0
                        } else {
                            old(self).loading_frame + 1
                        }) % 10) as u8
                    } else {
                        old(self).loading_frame
                    },
                    ..*old(self)
                }) && cmd is Nothing,
                AppEvent::Key(k) => key_step(*old(self), k, *final(self), cmd),
                AppEvent::Quit => *final(self) == (App { running: false, ..*old(self) })
                    && cmd is Nothing,
            },
    {
        match event {
            AppEvent::Tick => {
                if self.loading != LoadingState::Idle {
                    self.loading_frame = self.loading_frame.wrapping_add(1) % 10;
                }
                Command::Nothing
            },
            AppEvent::Key(k) => self.handle_key_event(k),
            AppEvent::Quit => {
                self.running = false;
                Command::Nothing
            },
        }
    }

    /// The local logs have been discovered: they become the sources, shown
    /// through the current search on the file explorer, with no directory
    /// open and the first row highlighted.
    pub fn finish_discover(&mut self, sources: Vec<LogSource>)
        requires
            old(self).wf(),
        ensures
            final(self).wf(),
            *final(self) == (App {
                sources,
                filtered_sources: final(self).filtered_sources,
                loading: LoadingState::Idle,
                current_dir: None,
                fs_entries: final(self).fs_entries,
                selected: Some(0usize),
                mode: AppMode::FileExplorer,
                ..*old(self)
            }),
            final(self).fs_entries@.len() == 0,
            source_views(final(self).filtered_sources@) == search_matches(
                source_views(sources@),
                old(self).search_input.value@,
            ),
    {
        self.sources = sources;
        self.loading = LoadingState::Idle;
        self.current_dir = None;
        self.fs_entries = Vec::new();
        self.update_search();
        self.mode = AppMode::FileExplorer;
    }

    /// The connection attempt is over. On success (`Ok` with the remote
    /// logs) the session is open and the logs are shown as after discovery;
    /// on failure (`Err` with the reason) the reason is shown as
    /// `Connection failed: ...`. Either way the first row is highlighted.
    pub fn finish_connect(&mut self, result: Result<Vec<LogSource>, String>)
        requires
            old(self).wf(),
        ensures
            final(self).wf(),
            match result {
                Ok(sources) => {
                    &&& *final(self) == (App {
                        sources,
                        filtered_sources: final(self).filtered_sources,
                        loading: LoadingState::Idle,
                        status_message: None,
                        ssh_connected: true,
                        current_dir: None,
                        fs_entries: final(self).fs_entries,
                        selected: Some(0usize),
                        mode: AppMode::FileExplorer,
                        ..*old(self)
                    })
                    &&& final(self).fs_entries@.len() == 0
                    &&& source_views(final(self).filtered_sources@) == search_matches(
                        source_views(sources@),
                        old(self).search_input.value@,
                    )
                },
                Err(reason) => {
                    &&& *final(self) == (App {
                        loading: LoadingState::Idle,
                        status_message: final(self).status_message,
                        selected: Some(0usize),
                        ..*old(self)
                    })
                    &&& final(self).status_message matches Some(m) && m@ == "Connection failed: "@
                        + reason@
                },
            },
    {
        match result {
            Ok(sources) => {
                self.sources = sources;
                self.loading = LoadingState::Idle;
                self.status_message = None;
                self.ssh_connected = true;
                self.current_dir = None;
                self.fs_entries = Vec::new();
                self.update_search();
                self.mode = AppMode::FileExplorer;
            },
            Err(reason) => {
                self.loading = LoadingState::Idle;
                self.status_message = Some(
                    crate::text::join2("Connection failed: ", reason.as_str()),
                );
                self.selected = Some(0);
            },
        }
    }

    /// The directory `path` has been listed: it becomes the open directory,
    /// showing `entries` with the first row highlighted.
    pub fn finish_list_dir(&mut self, path: String, entries: Vec<FsEntry>)
        ensures
            *final(self) == (App {
                fs_entries: entries,
                current_dir: Some(path),
                selected: Some(0usize),
                ..*old(self)
            }),
    {
        self.fs_entries = entries;
        self.current_dir = Some(path);
        self.selected = Some(0);
    }

    /// The log `source` has been read: it is opened on `lines` in the log view.
    pub fn finish_open_log(&mut self, source: LogSource, lines: Vec<String>)
        ensures
            *final(self) == (App {
                active_log: final(self).active_log,
                mode: AppMode::LogViewer,
                ..*old(self)
            }),
            final(self).active_log matches Some(l) && l.source == source && l.lines == lines
                && l.scroll == 0,
    {
        self.active_log = Some(ActiveLog::open(source, lines));
        self.mode = AppMode::LogViewer;
    }

    /// The open log has been read again: its lines are replaced and it is
    /// scrolled to the top (nothing happens when no log is open).
    pub fn finish_refresh(&mut self, lines: Vec<String>)
        ensures
            *final(self) == (App { active_log: final(self).active_log, ..*old(self) }),
            match old(self).active_log {
                Some(l) => final(self).active_log matches Some(m) && m.source == l.source
                    && m.lines == lines && m.scroll == 0,
                None => final(self).active_log is None,
            },
    {
        match self.active_log.take() {
            Some(mut log) => {
                log.refresh(lines);
                self.active_log = Some(log);
            },
            None => {},
        }
    }

    /// A shallow scan has found `found`: these become the sources and are
    /// all shown (the search is not applied), with the first row
    /// highlighted; while a directory is open its new listing `entries`
    /// replaces the old one.
    pub fn finish_shallow_scan(&mut self, found: Vec<LogSource>, entries: Option<Vec<FsEntry>>)
        ensures
            *final(self) == (App {
                sources: final(self).sources,
                filtered_sources: found,
                selected: Some(0usize),
                fs_entries: final(self).fs_entries,
                ..*old(self)
            }),
            final(self).sources@ == found@,
            final(self).fs_entries == match entries {
                Some(e) => if old(self).current_dir is Some {
                    e
                } else {
                    old(self).fs_entries
                },
                None => old(self).fs_entries,
            },
    {
        self.sources = copy_sources(&found);
        self.filtered_sources = found;
        self.selected = Some(0);
        if self.current_dir.is_some() {
            match entries {
                Some(e) => {
                    self.fs_entries = e;
                },
                None => {},
            }
        }
    }

    /// "Go to path" has been checked: when `raw` is a directory (its
    /// `listing` is given) it becomes the open directory with the first row
    /// highlighted; otherwise `Not a directory: ...` is shown. Either way the
    /// file explorer is shown.
    pub fn finish_goto(&mut self, raw: String, listing: Option<Vec<FsEntry>>)
        ensures
            match listing {
                Some(e) => *final(self) == (App {
                    fs_entries: e,
                    current_dir: Some(raw),
                    selected: Some(0usize),
                    mode: AppMode::FileExplorer,
                    ..*old(self)
                }),
                None => *final(self) == (App {
                    status_message: final(self).status_message,
                    mode: AppMode::FileExplorer,
                    ..*old(self)
                }) && (final(self).status_message matches Some(m) && m@ == "Not a directory: "@
                    + raw@),
            },
    {
        match listing {
            Some(e) => {
                self.fs_entries = e;
                self.current_dir = Some(raw);
                self.selected = Some(0);
            },
            None => {
                self.status_message = Some(crate::text::join2("Not a directory: ", raw.as_str()));
            },
        }
        self.mode = AppMode::FileExplorer;
    }

    /// Tab completion of the "go to path" text has run; `listing` is the
    /// listing of the directory `completion_target` chose for that text
    /// (`None` when it could not be read). When the text completes to
    /// something, that is typed into an emptied input.
    pub fn finish_tab_complete(&mut self, listing: Option<Vec<crate::log_source::DirItem>>)
        requires
            old(self).wf(),
        ensures
            final(self).wf(),
            ({
                let input = old(self).goto_input.value@;
                let target = crate::complete::completion_target_of(input);
                let result = match listing {
                    Some(items) => crate::complete::completion_result(
                        crate::complete::candidates_of(target.0, target.1, items@),
                    ),
                    None => None,
                };
                match result {
                    Some(c) => *final(self) == (App { goto_input: final(self).goto_input, ..*old(self) })
                        && final(self).goto_input.value@ == c && final(self).goto_input.cursor
                        == c.len(),
                    None => *final(self) == *old(self),
                }
            }),
    {
        match listing {
            Some(items) => {
                let done = crate::complete::tab_complete(self.goto_input.value(), &items);
                match done {
                    Some(c) => {
                        let mut input = TextInput::new();
                        input.set_by_typing(c.as_str());
                        self.goto_input = input;
                    },
                    None => {},
                }
            },
            None => {},
        }
    }

    /// The snapshot has been written (`Ok` with the file's path) or has
    /// failed (`Err` with the reason): `Exported to ...` or
    /// `Export failed: ...` is shown.
    pub fn finish_export(&mut self, result: Result<String, String>)
        ensures
            *final(self) == (App { export_message: final(self).export_message, ..*old(self) }),
            final(self).export_message matches Some(m) && m@ == match result {
                Ok(path) => "Exported to "@ + path@,
                Err(reason) => "Export failed: "@ + reason@,
            },
    {
        let m = match result {
            Ok(path) => crate::text::join2("Exported to ", path.as_str()),
            Err(reason) => crate::text::join2("Export failed: ", reason.as_str()),
        };
        self.export_message = Some(m);
    }
}

} // verus!
