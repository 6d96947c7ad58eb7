use logia_rs::log_reader::{
    load_plan, no_connection_lines, remote_output_lines, tail_lines, ActiveLog, LoadPlan, OPEN_TAIL,
    REFRESH_TAIL,
};
use logia_rs::log_source::{LogLocation, LogSource};

fn source(location: LogLocation) -> LogSource {
    LogSource { name: "app.log".to_string(), path: "/srv/app.log".to_string(), location }
}

fn lines(n: usize) -> Vec<String> {
    (0..n).map(|i| format!("line {}", i)).collect()
}

#[test]
fn tail_keeps_the_last_lines() {
    assert_eq!(tail_lines(lines(5), 2), vec!["line 3", "line 4"]);
    assert_eq!(tail_lines(lines(2), 5), vec!["line 0", "line 1"]);
    assert_eq!(tail_lines(lines(3), 0), Vec::<String>::new());
    assert_eq!(tail_lines(lines(150), OPEN_TAIL).len(), 100);
    assert_eq!(tail_lines(lines(150), OPEN_TAIL)[0], "line 50");
    assert_eq!(REFRESH_TAIL, 500);
}

#[test]
fn local_logs_are_read_from_their_file() {
    match load_plan(&source(LogLocation::Local), OPEN_TAIL, true) {
        LoadPlan::ReadFile { path, tail } => {
            assert_eq!(path, "/srv/app.log");
            assert_eq!(tail, 100);
        }
        other => panic!("unexpected {:?}", other),
    }
}

#[test]
fn remote_logs_run_tail_when_connected() {
    let remote = source(LogLocation::Remote("prod".to_string()));
    match load_plan(&remote, REFRESH_TAIL, true) {
        LoadPlan::RunRemote { command } => assert_eq!(command, "tail -n 500 /srv/app.log"),
        other => panic!("unexpected {:?}", other),
    }
    assert!(matches!(load_plan(&remote, 100, false), LoadPlan::NoConnection));
    assert_eq!(no_connection_lines(), vec!["Error: No SSH connection active for remote log"]);
}

#[test]
fn remote_output_is_split_into_lines() {
    assert_eq!(remote_output_lines(Some("a\nb\n".to_string())), vec!["a", "b"]);
    assert!(remote_output_lines(None).is_empty());
}

#[test]
fn scrolling_saturates() {
    let mut log = ActiveLog::open(source(LogLocation::Local), lines(30));
    assert_eq!(log.scroll, 0);
    log.scroll_up(1);
    assert_eq!(log.scroll, 0);
    log.scroll_down(20);
    log.scroll_down(1);
    assert_eq!(log.scroll, 21);
    log.scroll_up(20);
    assert_eq!(log.scroll, 1);
    log.scroll_to_end();
    assert_eq!(log.scroll, 29);
    log.scroll_to_top();
    assert_eq!(log.scroll, 0);
    log.scroll_down(u16::MAX);
    log.scroll_down(5);
    assert_eq!(log.scroll, u16::MAX);
}

#[test]
fn refresh_replaces_lines_and_scrolls_to_top() {
    let mut log = ActiveLog::open(source(LogLocation::Local), lines(3));
    log.scroll_down(2);
    log.refresh(lines(1));
    assert_eq!(log.lines, vec!["line 0"]);
    assert_eq!(log.scroll, 0);
    assert_eq!(log.source.name, "app.log");
    let mut empty = ActiveLog::open(source(LogLocation::Local), Vec::new());
    empty.scroll_to_end();
    assert_eq!(empty.scroll, 0);
}
