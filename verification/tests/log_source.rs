use logia_rs::log_source::{
    discover_sources, is_ignored, list_dir, remote_scan_commands, scan_remote, shallow_scan,
    DirItem, EntryKind, FsEntry, LogLocation, WalkItem, SHALLOW_SCAN_DEPTH,
};

fn item(root: &str, name: &str, kind: EntryKind) -> DirItem {
    DirItem { name: name.to_string(), path: format!("{}/{}", root, name), kind }
}

fn walk(path: &str, depth: usize, is_file: bool) -> WalkItem {
    WalkItem { path: path.to_string(), depth, is_file, readable: is_file }
}

#[test]
fn list_dir_returns_dirs_then_logs() {
    let root = "/tmp/logia_test_x";
    let items = vec![
        item(root, "b.log", EntryKind::File),
        item(root, "subdir", EntryKind::Directory),
        item(root, "a.log", EntryKind::File),
    ];
    let entries = list_dir(&items);
    assert!(matches!(&entries[0], FsEntry::Directory(p) if p.ends_with("subdir")));
    let log_names: Vec<_> = entries[1..]
        .iter()
        .filter_map(|e| if let FsEntry::LogFile(s) = e { Some(s.name.as_str()) } else { None })
        .collect();
    assert!(log_names.contains(&"a.log"));
    assert!(log_names.contains(&"b.log"));
    assert_eq!(log_names, vec!["a.log", "b.log"]);
}

#[test]
fn list_dir_excludes_non_log_files() {
    let root = "/tmp/logia_test_y";
    let items = vec![item(root, "readme.txt", EntryKind::File), item(root, "app.log", EntryKind::File)];
    let entries = list_dir(&items);
    assert_eq!(entries.len(), 1);
    assert!(matches!(&entries[0], FsEntry::LogFile(s) if s.name == "app.log"));
}

#[test]
fn list_dir_skips_hidden_ignored_and_other_entries() {
    let root = "/r";
    let items = vec![
        item(root, ".hidden.log", EntryKind::File),
        item(root, ".git", EntryKind::Directory),
        item(root, "node_modules", EntryKind::Directory),
        item(root, "zeta", EntryKind::Directory),
        item(root, "alpha", EntryKind::Directory),
        item(root, "sock.log", EntryKind::Other),
        item(root, ".log", EntryKind::File),
        item(root, "x.log", EntryKind::File),
    ];
    let entries = list_dir(&items);
    assert_eq!(entries.len(), 3);
    assert!(matches!(&entries[0], FsEntry::Directory(p) if p == "/r/alpha"));
    assert!(matches!(&entries[1], FsEntry::Directory(p) if p == "/r/zeta"));
    assert!(
        matches!(&entries[2], FsEntry::LogFile(s) if s.name == "x.log" && s.path == "/r/x.log" && s.location == LogLocation::Local)
    );
}

#[test]
fn shallow_scan_finds_logs_up_to_depth_3() {
    let root = "/tmp/logia_test_z";
    let items = vec![
        walk(root, 0, false),
        walk(&format!("{}/d1.log", root), 1, true),
        walk(&format!("{}/level1", root), 1, false),
        walk(&format!("{}/level1/d2.log", root), 2, true),
        walk(&format!("{}/level1/level2", root), 2, false),
        walk(&format!("{}/level1/level2/d3.log", root), 3, true),
        walk(&format!("{}/level1/level2/level3", root), 3, false),
        walk(&format!("{}/level1/level2/level3/d4.log", root), 4, true),
    ];
    let sources = shallow_scan(&items);
    let names: Vec<&str> = sources.iter().map(|s| s.name.as_str()).collect();
    assert!(names.contains(&"d1.log"), "depth 1 missing: found {:?} in {:?}", names, root);
    assert!(names.contains(&"d2.log"), "depth 2 missing");
    assert!(names.contains(&"d3.log"), "depth 3 missing");
    assert!(!names.contains(&"d4.log"), "depth 4 should be excluded");
    assert_eq!(SHALLOW_SCAN_DEPTH, 3);
}

#[test]
fn shallow_scan_empty_dir_returns_empty() {
    let items = vec![walk("/tmp/logia_test_empty", 0, false)];
    let sources = shallow_scan(&items);
    assert!(sources.is_empty());
}

#[test]
fn shallow_scan_sorts_by_name_and_drops_repeated_paths() {
    let items = vec![
        walk("/a/zz.log", 1, true),
        walk("/a/b/aa.log", 2, true),
        walk("/a/zz.log", 1, true),
        walk("/a/notes.txt", 1, true),
    ];
    let sources = shallow_scan(&items);
    let paths: Vec<&str> = sources.iter().map(|s| s.path.as_str()).collect();
    assert_eq!(paths, vec!["/a/b/aa.log", "/a/zz.log"]);
}

#[test]
fn discovered_logs_are_named_with_their_grandparent() {
    let items = vec![
        walk("/var/www/html/storage/logs/laravel.log", 5, true),
        walk("/var/log/syslog.log", 2, true),
        walk("/app.log", 1, true),
        walk("/var/log/nginx", 2, false),
    ];
    let sources = discover_sources(&items);
    let names: Vec<&str> = sources.iter().map(|s| s.name.as_str()).collect();
    assert_eq!(names, vec!["app.log", "storage/laravel.log", "var/syslog.log"]);
}

#[test]
fn ignored_names() {
    assert!(is_ignored(".git"));
    assert!(!is_ignored("."));
    assert!(is_ignored("node_modules"));
    assert!(is_ignored("proc"));
    assert!(!is_ignored("logs"));
    assert!(!is_ignored("Vendor"));
}

#[test]
fn remote_scan_commands_search_four_roots() {
    let cmds = remote_scan_commands();
    assert_eq!(
        cmds,
        vec![
            "find /var/log -type f -name '*.log' 2>/dev/null".to_string(),
            "find /var/www -type f -name '*.log' 2>/dev/null".to_string(),
            "find /opt -type f -name '*.log' 2>/dev/null".to_string(),
            "find /home -type f -name '*.log' 2>/dev/null".to_string(),
        ]
    );
}

#[test]
fn scan_remote_reads_find_output() {
    let outputs = vec![
        "/var/log/nginx/error.log\n  /var/log/auth.log  \n\n".to_string(),
        "/home/deploy/app/storage/logs/laravel.log\r\n/var/log/auth.log\n".to_string(),
    ];
    let sources = scan_remote(&outputs, "prod-1");
    let names: Vec<&str> = sources.iter().map(|s| s.name.as_str()).collect();
    assert_eq!(names, vec!["log/error.log", "storage/laravel.log", "var/auth.log"]);
    assert!(sources.iter().all(|s| s.location == LogLocation::Remote("prod-1".to_string())));
    assert_eq!(sources[0].path, "/var/log/nginx/error.log");
}

#[test]
fn names_are_ordered_by_code_point_and_ties_keep_walk_order() {
    let items = vec![
        walk("/w/alpha.log", 1, true),
        walk("/w/Zeta.log", 1, true),
        walk("/w/x/Alpha.log", 2, true),
        walk("/w/y/alpha.log", 2, true),
    ];
    let sources = shallow_scan(&items);
    let paths: Vec<&str> = sources.iter().map(|s| s.path.as_str()).collect();
    assert_eq!(paths, vec!["/w/x/Alpha.log", "/w/Zeta.log", "/w/alpha.log", "/w/y/alpha.log"]);
}

#[test]
fn discovery_lists_only_readable_logs() {
    let mut locked = walk("/var/log/secure/auth.log", 3, true);
    locked.readable = false;
    let items = vec![locked, walk("/var/log/app/app.log", 3, true)];
    let found = discover_sources(&items);
    let paths: Vec<&str> = found.iter().map(|s| s.path.as_str()).collect();
    assert_eq!(paths, vec!["/var/log/app/app.log"]);
    let mut locked = walk("/d/auth.log", 1, true);
    locked.readable = false;
    assert_eq!(shallow_scan(&vec![locked]).len(), 1);
}

#[test]
fn failed_find_commands_add_nothing() {
    let ok = "/var/log/app/app.log\n".to_string();
    let with_failure = scan_remote(&vec![String::new(), ok.clone(), String::new()], "h");
    let without = scan_remote(&vec![ok], "h");
    let a: Vec<&str> = with_failure.iter().map(|s| s.path.as_str()).collect();
    let b: Vec<&str> = without.iter().map(|s| s.path.as_str()).collect();
    assert_eq!(a, b);
    assert!(scan_remote(&Vec::new(), "h").is_empty());
}

#[test]
fn shallow_scan_and_discovery_agree_within_three_levels() {
    let items = vec![
        walk("/r/a.log", 1, true),
        walk("/r/x/y/b.log", 3, true),
        walk("/r/x/y/z/c.log", 4, true),
    ];
    let shallow: Vec<String> = shallow_scan(&items).into_iter().map(|s| s.path).collect();
    let near: Vec<WalkItem> = items.into_iter().filter(|it| it.depth <= SHALLOW_SCAN_DEPTH).collect();
    let mut discovered: Vec<String> = discover_sources(&near).into_iter().map(|s| s.path).collect();
    let mut sorted_shallow = shallow.clone();
    sorted_shallow.sort();
    discovered.sort();
    assert_eq!(sorted_shallow, discovered);
}
