use logia_rs::app::{App, AppEvent, AppMode, Command, LoadingState};
use logia_rs::config::{AppConfig, ServerConfig};
use logia_rs::input::{KeyCode, KeyPress, Modifiers};
use logia_rs::log_source::{DirItem, EntryKind, FsEntry, LogLocation, LogSource};
use logia_rs::theme::ColorScheme;

fn key(code: KeyCode) -> KeyPress {
    KeyPress { code, modifiers: Modifiers::Plain }
}

fn ch(c: char) -> KeyPress {
    key(KeyCode::Char(c))
}

fn src(name: &str) -> LogSource {
    LogSource { name: name.to_string(), path: format!("/var/log/{}", name), location: LogLocation::Local }
}

fn server(name: &str) -> ServerConfig {
    ServerConfig {
        name: name.to_string(),
        host: "h".to_string(),
        port: 22,
        username: "u".to_string(),
        password: None,
        key_path: None,
    }
}

fn app_with_servers(n: usize) -> App {
    let mut config = AppConfig::default();
    for i in 0..n {
        config.servers.push(server(&format!("s{}", i)));
    }
    App::new(config, Vec::new(), Some("/home/me".to_string()))
}

fn explorer(sources: Vec<LogSource>) -> App {
    let mut app = app_with_servers(0);
    app.finish_discover(sources);
    app
}

#[test]
fn starts_on_the_server_list() {
    let app = app_with_servers(0);
    assert!(app.running);
    assert_eq!(app.mode, AppMode::ServerSelect);
    assert_eq!(app.selected, Some(0));
    assert_eq!(app.color_scheme, ColorScheme::Default);
    assert_eq!(app.loading, LoadingState::Idle);
    assert!(!app.ssh_connected);
    let mut config = AppConfig::default();
    config.color_scheme = Some(ColorScheme::Dark);
    assert_eq!(App::new(config, Vec::new(), None).color_scheme, ColorScheme::Dark);
}

#[test]
fn server_list_cursor_stays_on_its_rows() {
    let mut app = app_with_servers(2);
    assert!(matches!(app.handle_key_event(key(KeyCode::Up)), Command::Nothing));
    assert_eq!(app.selected, Some(0));
    app.handle_key_event(key(KeyCode::Down));
    app.handle_key_event(key(KeyCode::Down));
    app.handle_key_event(key(KeyCode::Down));
    assert_eq!(app.selected, Some(2));
    app.handle_key_event(key(KeyCode::Up));
    assert_eq!(app.selected, Some(1));
}

#[test]
fn enter_discovers_local_logs_or_connects() {
    let mut app = app_with_servers(2);
    assert!(matches!(app.handle_key_event(key(KeyCode::Enter)), Command::DiscoverLocal));
    assert_eq!(app.loading, LoadingState::Scanning);
    let mut app = app_with_servers(2);
    app.handle_key_event(key(KeyCode::Down));
    app.handle_key_event(key(KeyCode::Down));
    assert!(matches!(app.handle_key_event(key(KeyCode::Enter)), Command::Connect(1)));
    assert_eq!(app.loading, LoadingState::Connecting);
}

#[test]
fn quitting() {
    let mut app = app_with_servers(0);
    assert!(matches!(app.handle_key_event(ch('q')), Command::Quit));
    assert!(matches!(app.handle_key_event(key(KeyCode::Esc)), Command::Quit));
    let mut app = explorer(vec![src("a.log")]);
    app.handle_key_event(ch('/'));
    assert_eq!(app.mode, AppMode::SearchPrompt);
    let ctrl_c = KeyPress { code: KeyCode::Char('c'), modifiers: Modifiers::Control };
    assert!(matches!(app.handle_key_event(ctrl_c), Command::Quit));
    assert!(matches!(app.handle_events(AppEvent::Quit), Command::Nothing));
    assert!(!app.running);
}

#[test]
fn theme_key_cycles_and_saves_outside_prompts() {
    let mut app = app_with_servers(0);
    assert!(matches!(app.handle_key_event(ch('t')), Command::SaveConfig));
    assert_eq!(app.color_scheme, ColorScheme::HighContrast);
    assert_eq!(app.config.color_scheme, Some(ColorScheme::HighContrast));
    app.handle_key_event(ch('t'));
    app.handle_key_event(ch('t'));
    assert_eq!(app.color_scheme, ColorScheme::Default);
    let mut app = explorer(vec![src("a.log")]);
    app.handle_key_event(ch('/'));
    assert!(matches!(app.handle_key_event(ch('t')), Command::Nothing));
    assert_eq!(app.color_scheme, ColorScheme::Default);
    assert_eq!(app.search_input.value(), "t");
}

#[test]
fn adding_a_server_through_the_form() {
    let mut app = app_with_servers(0);
    app.handle_key_event(ch('a'));
    assert_eq!(app.mode, AppMode::SshForm);
    for c in "prod".chars() {
        app.handle_key_event(ch(c));
    }
    app.handle_key_event(key(KeyCode::Tab));
    for c in "example.com".chars() {
        app.handle_key_event(ch(c));
    }
    app.handle_key_event(key(KeyCode::Down));
    for c in "2200".chars() {
        app.handle_key_event(ch(c));
    }
    app.handle_key_event(key(KeyCode::Tab));
    app.handle_key_event(ch('u'));
    app.handle_key_event(key(KeyCode::Tab));
    app.handle_key_event(key(KeyCode::Tab));
    assert_eq!(app.ssh_form.active_field, 4);
    for c in "~/.ssh/id".chars() {
        app.handle_key_event(ch(c));
    }
    assert!(matches!(app.handle_key_event(key(KeyCode::Enter)), Command::SaveConfig));
    assert_eq!(app.mode, AppMode::ServerSelect);
    assert_eq!(app.config.servers.len(), 1);
    let s = &app.config.servers[0];
    assert_eq!(s.name, "prod");
    assert_eq!(s.host, "example.com");
    assert_eq!(s.port, 2200);
    assert_eq!(s.username, "u");
    assert_eq!(s.key_path, Some("~/.ssh/id".to_string()));
    assert_eq!(s.password, None);
}

#[test]
fn form_escape_discards_nothing_saved() {
    let mut app = app_with_servers(1);
    app.handle_key_event(ch('n'));
    app.handle_key_event(ch('x'));
    app.handle_key_event(key(KeyCode::BackTab));
    assert_eq!(app.ssh_form.active_field, 0);
    assert!(matches!(app.handle_key_event(key(KeyCode::Esc)), Command::Nothing));
    assert_eq!(app.mode, AppMode::ServerSelect);
    assert_eq!(app.config.servers.len(), 1);
}

#[test]
fn searching_filters_sources_by_name() {
    let mut app = explorer(vec![src("laravel.log"), src("nginx.log"), src("Laravel-worker.log")]);
    assert_eq!(app.mode, AppMode::FileExplorer);
    assert_eq!(app.filtered_sources.len(), 3);
    app.handle_key_event(ch('/'));
    for c in "LARA".chars() {
        app.handle_key_event(ch(c));
    }
    let names: Vec<&str> = app.filtered_sources.iter().map(|s| s.name.as_str()).collect();
    assert_eq!(names, vec!["laravel.log", "Laravel-worker.log"]);
    assert_eq!(app.selected, Some(0));
    app.handle_key_event(key(KeyCode::Enter));
    assert_eq!(app.mode, AppMode::FileExplorer);
    app.handle_key_event(key(KeyCode::Down));
    match app.handle_key_event(key(KeyCode::Enter)) {
        Command::OpenLog(s) => assert_eq!(s.name, "Laravel-worker.log"),
        other => panic!("unexpected {:?}", other),
    }
}

#[test]
fn log_view_scrolls_exports_and_closes() {
    let mut app = explorer(vec![src("a.log")]);
    let lines: Vec<String> = (0..40).map(|i| format!("INFO {}", i)).collect();
    app.finish_open_log(src("a.log"), lines.clone());
    assert_eq!(app.mode, AppMode::LogViewer);
    app.handle_key_event(ch('j'));
    app.handle_key_event(key(KeyCode::PageDown));
    assert_eq!(app.active_log.as_ref().unwrap().scroll, 21);
    app.handle_key_event(ch('k'));
    assert_eq!(app.active_log.as_ref().unwrap().scroll, 20);
    app.handle_key_event(key(KeyCode::End));
    assert_eq!(app.active_log.as_ref().unwrap().scroll, 39);
    app.handle_key_event(key(KeyCode::Home));
    assert_eq!(app.active_log.as_ref().unwrap().scroll, 0);
    match app.handle_key_event(ch('e')) {
        Command::Export { lines: l, query } => {
            assert_eq!(l, lines);
            assert_eq!(query, "");
        }
        other => panic!("unexpected {:?}", other),
    }
    app.finish_export(Ok("/tmp/snap.log".to_string()));
    assert_eq!(app.export_message, Some("Exported to /tmp/snap.log".to_string()));
    app.handle_key_event(ch('x'));
    assert_eq!(app.export_message, None);
    app.finish_export(Err("disk full".to_string()));
    assert_eq!(app.export_message, Some("Export failed: disk full".to_string()));
    match app.handle_key_event(ch('r')) {
        Command::RefreshLog(s) => assert_eq!(s.path, "/var/log/a.log"),
        other => panic!("unexpected {:?}", other),
    }
    app.finish_refresh(vec!["new".to_string()]);
    assert_eq!(app.active_log.as_ref().unwrap().lines, vec!["new"]);
    app.handle_key_event(key(KeyCode::Esc));
    assert_eq!(app.mode, AppMode::FileExplorer);
    assert!(app.active_log.is_none());
}

#[test]
fn log_search_prompt_edits_the_query() {
    let mut app = explorer(vec![src("a.log")]);
    app.finish_open_log(src("a.log"), vec!["x".to_string()]);
    app.handle_key_event(ch('/'));
    assert_eq!(app.mode, AppMode::LogSearchPrompt);
    app.handle_key_event(ch('e'));
    app.handle_key_event(ch('r'));
    assert_eq!(app.search_input.value(), "er");
    app.handle_key_event(key(KeyCode::Enter));
    assert_eq!(app.mode, AppMode::LogViewer);
    match app.handle_key_event(ch('e')) {
        Command::Export { query, .. } => assert_eq!(query, "er"),
        other => panic!("unexpected {:?}", other),
    }
    app.handle_key_event(ch('/'));
    assert_eq!(app.search_input.value(), "");
    app.handle_key_event(ch('z'));
    app.handle_key_event(key(KeyCode::Esc));
    assert_eq!(app.search_input.value(), "");
    assert_eq!(app.mode, AppMode::LogViewer);
}

#[test]
fn failed_connection_is_reported() {
    let mut app = app_with_servers(1);
    app.handle_key_event(key(KeyCode::Down));
    app.handle_key_event(key(KeyCode::Enter));
    app.finish_connect(Err("timed out".to_string()));
    assert_eq!(app.loading, LoadingState::Idle);
    assert_eq!(app.status_message, Some("Connection failed: timed out".to_string()));
    assert_eq!(app.mode, AppMode::ServerSelect);
    app.finish_connect(Ok(vec![src("remote.log")]));
    assert!(app.ssh_connected);
    assert_eq!(app.status_message, None);
    assert_eq!(app.mode, AppMode::FileExplorer);
    assert_eq!(app.filtered_sources.len(), 1);
}

#[test]
fn goto_prompt_starts_at_home_and_reports_non_directories() {
    let mut app = explorer(vec![]);
    app.handle_key_event(ch('g'));
    assert_eq!(app.mode, AppMode::GotoPrompt);
    assert_eq!(app.goto_input.value(), "/home/me");
    app.handle_key_event(ch(' '));
    match app.handle_key_event(key(KeyCode::Enter)) {
        Command::Goto(p) => assert_eq!(p, "/home/me"),
        other => panic!("unexpected {:?}", other),
    }
    app.finish_goto("/nowhere".to_string(), None);
    assert_eq!(app.status_message, Some("Not a directory: /nowhere".to_string()));
    assert_eq!(app.mode, AppMode::FileExplorer);
    app.finish_goto("/var/log".to_string(), Some(vec![FsEntry::Directory("/var/log/nginx".to_string())]));
    assert_eq!(app.current_dir, Some("/var/log".to_string()));
    assert_eq!(app.fs_entries.len(), 1);
}

#[test]
fn goto_tab_completes_the_path() {
    let mut app = explorer(vec![]);
    app.handle_key_event(ch('g'));
    for _ in 0.."/home/me".len() {
        app.handle_key_event(key(KeyCode::Backspace));
    }
    for c in "/var/l".chars() {
        app.handle_key_event(ch(c));
    }
    match app.handle_key_event(key(KeyCode::Tab)) {
        Command::TabComplete(t) => assert_eq!(t, "/var/l"),
        other => panic!("unexpected {:?}", other),
    }
    let listing = vec![
        DirItem { name: "log".to_string(), path: "/var/log".to_string(), kind: EntryKind::Directory },
        DirItem { name: "lib".to_string(), path: "/var/lib".to_string(), kind: EntryKind::Directory },
        DirItem { name: "www".to_string(), path: "/var/www".to_string(), kind: EntryKind::Directory },
    ];
    app.finish_tab_complete(Some(listing));
    assert_eq!(app.goto_input.value(), "/var/l");
    app.handle_key_event(ch('o'));
    let listing = vec![
        DirItem { name: "log".to_string(), path: "/var/log".to_string(), kind: EntryKind::Directory },
        DirItem { name: "lib".to_string(), path: "/var/lib".to_string(), kind: EntryKind::Directory },
    ];
    app.finish_tab_complete(Some(listing));
    assert_eq!(app.goto_input.value(), "/var/log/");
    assert_eq!(app.goto_input.cursor, 9);
    app.finish_tab_complete(None);
    assert_eq!(app.goto_input.value(), "/var/log/");
    app.handle_key_event(key(KeyCode::Esc));
    assert_eq!(app.mode, AppMode::FileExplorer);
}

#[test]
fn browsing_directories() {
    let mut app = explorer(vec![]);
    app.finish_list_dir(
        "/var/log".to_string(),
        vec![FsEntry::Directory("/var/log/nginx".to_string()), FsEntry::LogFile(src("syslog.log"))],
    );
    match app.handle_key_event(key(KeyCode::Enter)) {
        Command::ListDir(p) => assert_eq!(p, "/var/log/nginx"),
        other => panic!("unexpected {:?}", other),
    }
    app.handle_key_event(key(KeyCode::Down));
    assert!(matches!(app.handle_key_event(key(KeyCode::Enter)), Command::OpenLog(s) if s.name == "syslog.log"));
    match app.handle_key_event(ch('-')) {
        Command::ListDir(p) => assert_eq!(p, "/var"),
        other => panic!("unexpected {:?}", other),
    }
    assert!(matches!(
        app.handle_key_event(ch('s')),
        Command::ShallowScan { dir: Some(d), relist: true } if d == "/var/log"
    ));
    app.finish_shallow_scan(vec![src("x.log")], Some(vec![]));
    assert_eq!(app.sources.len(), 1);
    assert!(app.fs_entries.is_empty());
    app.finish_list_dir("/".to_string(), vec![]);
    assert!(matches!(app.handle_key_event(key(KeyCode::Backspace)), Command::Nothing));
    assert_eq!(app.current_dir, None);
    assert!(matches!(app.handle_key_event(ch('s')), Command::ShallowScan { dir: None, relist: false }));
    app.handle_key_event(key(KeyCode::Esc));
    assert_eq!(app.mode, AppMode::ServerSelect);
}

#[test]
fn ticks_advance_the_spinner_only_while_loading() {
    let mut app = app_with_servers(0);
    app.handle_events(AppEvent::Tick);
    assert_eq!(app.loading_frame, 0);
    app.handle_events(AppEvent::Key(key(KeyCode::Enter)));
    for _ in 0..12 {
        app.handle_events(AppEvent::Tick);
    }
    assert_eq!(app.loading_frame, 2);
}

#[test]
fn cursor_moves_within_its_list() {
    let mut app = app_with_servers(0);
    app.cursor_down(5);
    app.cursor_down(5);
    assert_eq!(app.selected, Some(2));
    app.cursor_up(5);
    assert_eq!(app.selected, Some(1));
    app.cursor_down(2);
    app.cursor_down(2);
    assert_eq!(app.selected, Some(1));
    app.cursor_up(0);
    assert_eq!(app.selected, Some(1));
    app.selected = None;
    app.cursor_up(3);
    assert_eq!(app.selected, Some(0));
    app.selected = None;
    app.cursor_down(3);
    assert_eq!(app.selected, Some(0));
    app.cursor_up(3);
    assert_eq!(app.selected, Some(0));
}
