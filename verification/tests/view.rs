use logia_rs::app::{App, AppMode, LoadingState};
use logia_rs::config::{AppConfig, ServerConfig};
use logia_rs::input::{KeyCode, KeyPress, Modifiers};
use logia_rs::log_source::{FsEntry, LogLocation, LogSource};
use logia_rs::view::{footer_hints, main_panel, shows_sidebar, sidebar_view, spinner_frame, MainPanel, SidebarView};

fn key(c: char) -> KeyPress {
    KeyPress { code: KeyCode::Char(c), modifiers: Modifiers::Plain }
}

fn src(name: &str) -> LogSource {
    LogSource { name: name.to_string(), path: format!("/l/{}", name), location: LogLocation::Local }
}

fn app() -> App {
    let mut config = AppConfig::default();
    config.servers.push(ServerConfig {
        name: "prod".to_string(),
        host: "10.0.0.5".to_string(),
        port: 22,
        username: "u".to_string(),
        password: None,
        key_path: None,
    });
    App::new(config, Vec::new(), None)
}

#[test]
fn log_view_hides_the_sidebar() {
    assert!(shows_sidebar(AppMode::ServerSelect));
    assert!(shows_sidebar(AppMode::GotoPrompt));
    assert!(!shows_sidebar(AppMode::LogViewer));
    assert!(!shows_sidebar(AppMode::LogSearchPrompt));
}

#[test]
fn footer_hints_per_mode() {
    assert_eq!(footer_hints(AppMode::ServerSelect), " ↑↓ Navigate   ↵ Connect   a New SSH   q Quit   t Theme");
    assert_eq!(footer_hints(AppMode::LogSearchPrompt), " Type to search   ↵ Confirm   Esc Cancel");
    assert!(footer_hints(AppMode::LogViewer).contains("e Export"));
}

#[test]
fn spinner_cycles_through_ten_frames() {
    assert_eq!(spinner_frame(0), '⠋');
    assert_eq!(spinner_frame(9), '⠏');
    assert_eq!(spinner_frame(10), '⠋');
    assert_eq!(spinner_frame(255), spinner_frame(5));
}

#[test]
fn server_list_sidebar() {
    let a = app();
    match sidebar_view(&a) {
        SidebarView::Servers(rows) => {
            assert_eq!(rows.len(), 2);
            assert_eq!(rows[0].text, "Local (This Machine)");
            assert!(rows[0].local);
            assert_eq!(rows[1].text, "SSH: prod (10.0.0.5)");
            assert!(!rows[1].local);
        }
        _ => panic!("expected the server list"),
    }
    assert!(matches!(main_panel(&a), MainPanel::Welcome(n) if n == "Default"));
}

#[test]
fn directory_sidebar_and_sources_sidebar() {
    let mut a = app();
    a.finish_discover(vec![src("a.log"), src("b.log")]);
    match sidebar_view(&a) {
        SidebarView::Sources(rows) => {
            let t: Vec<&str> = rows.iter().map(|r| r.text.as_str()).collect();
            assert_eq!(t, vec!["a.log", "b.log"]);
        }
        _ => panic!("expected the sources"),
    }
    a.finish_list_dir(
        "/var/log".to_string(),
        vec![FsEntry::Directory("/var/log/nginx".to_string()), FsEntry::LogFile(src("syslog.log"))],
    );
    match sidebar_view(&a) {
        SidebarView::Directory { title, rows } => {
            assert_eq!(title, " /var/log ");
            assert_eq!(rows[0].text, "📁 nginx");
            assert!(rows[0].local);
            assert_eq!(rows[1].text, "📄 syslog.log");
        }
        _ => panic!("expected the directory"),
    }
    a.loading = LoadingState::Scanning;
    a.loading_frame = 3;
    assert!(matches!(sidebar_view(&a), SidebarView::Scanning('⠸')));
}

#[test]
fn main_panel_by_state() {
    let mut a = app();
    a.finish_discover(vec![src("a.log")]);
    assert!(matches!(main_panel(&a), MainPanel::Finder { text, focused: false } if text == " Press '/' to search..."));
    a.handle_key_event(key('/'));
    assert!(matches!(main_panel(&a), MainPanel::Finder { text, focused: true } if text.is_empty()));
    a.handle_key_event(key('a'));
    assert!(matches!(main_panel(&a), MainPanel::Finder { text, .. } if text == "a"));
    a.status_message = Some("Not a directory: /x".to_string());
    assert!(matches!(main_panel(&a), MainPanel::Status(m) if m == "Not a directory: /x"));
    a.loading = LoadingState::Connecting;
    assert!(matches!(main_panel(&a), MainPanel::Connecting('⠋')));
}

#[test]
fn form_panel_marks_the_active_field() {
    let mut a = app();
    a.handle_key_event(key('a'));
    a.handle_key_event(key('x'));
    match main_panel(&a) {
        MainPanel::Form { fields, active } => {
            assert_eq!(active, 0);
            assert_eq!(fields, vec!["x_", " ", " ", " ", " "]);
        }
        _ => panic!("expected the form"),
    }
}

#[test]
fn log_panel_shows_matching_styled_lines() {
    let mut a = app();
    a.finish_discover(vec![src("laravel.log")]);
    a.finish_open_log(
        src("laravel.log"),
        vec![
            "[2024-01-01 00:00:00] local.ERROR: boom".to_string(),
            "plain info".to_string(),
            "other".to_string(),
        ],
    );
    match main_panel(&a) {
        MainPanel::Log(l) => {
            assert_eq!(l.title, " laravel.log — [/] Search  [r] Refresh  [e] Export ");
            assert_eq!(l.lines.len(), 3);
            assert_eq!(l.lines[0].len(), 4);
            assert_eq!(l.lines[1][0].text, "plain info");
            assert!(!l.focused);
            assert!(l.export.is_none());
        }
        _ => panic!("expected the log view"),
    }
    a.handle_key_event(key('/'));
    for c in "INFO".chars() {
        a.handle_key_event(key(c));
    }
    a.finish_export(Err("denied".to_string()));
    match main_panel(&a) {
        MainPanel::Log(l) => {
            assert_eq!(l.title, " laravel.log — Search: INFO_ ");
            assert_eq!(l.lines.len(), 1);
            assert_eq!(l.lines[0][0].text, "plain info");
            assert!(l.focused);
            assert_eq!(l.export, Some(("Export failed: denied".to_string(), true)));
        }
        _ => panic!("expected the log view"),
    }
}

#[test]
fn goto_panel_shows_a_cursor_mark() {
    let mut a = app();
    a.finish_discover(vec![]);
    a.handle_key_event(key('g'));
    assert!(matches!(main_panel(&a), MainPanel::Goto(t) if t == "/_"));
}
