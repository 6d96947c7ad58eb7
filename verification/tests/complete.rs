use logia_rs::complete::{completion_target, tab_complete};
use logia_rs::log_source::{DirItem, EntryKind};

fn item(name: &str, kind: EntryKind) -> DirItem {
    DirItem { name: name.to_string(), path: format!("/x/{}", name), kind }
}

#[test]
fn target_of_a_trailing_slash_is_the_text_itself() {
    assert_eq!(completion_target("/var/"), ("/var/".to_string(), "".to_string()));
}

#[test]
fn target_of_a_partial_name_is_its_parent() {
    assert_eq!(completion_target("/var/lo"), ("/var".to_string(), "lo".to_string()));
    assert_eq!(completion_target("/va"), ("/".to_string(), "va".to_string()));
    assert_eq!(completion_target("/"), ("/".to_string(), "".to_string()));
}

#[test]
fn single_candidate_completes_fully() {
    let items = vec![item("log", EntryKind::Directory), item("www", EntryKind::Directory)];
    assert_eq!(tab_complete("/var/l", &items), Some("/var/log/".to_string()));
    let files = vec![item("app.log", EntryKind::File)];
    assert_eq!(tab_complete("/srv/a", &files), Some("/srv/app.log".to_string()));
}

#[test]
fn several_candidates_complete_to_their_common_prefix() {
    let items = vec![
        item("laravel-2024.log", EntryKind::File),
        item("laravel-2023.log", EntryKind::File),
        item("other", EntryKind::Directory),
    ];
    assert_eq!(
        tab_complete("/s/la", &items),
        Some("/s/laravel-202".to_string())
    );
    assert_eq!(tab_complete("/s/laravel-202", &items), Some("/s/laravel-202".to_string()));
}

#[test]
fn hidden_entries_and_empty_listings_give_nothing() {
    let items = vec![item(".env", EntryKind::File)];
    assert_eq!(tab_complete("/app/.e", &items), None);
    assert_eq!(tab_complete("/app/x", &Vec::new()), None);
}

#[test]
fn completion_extends_a_text_ending_in_a_slash() {
    let items = vec![item("log", EntryKind::Directory), item("lib", EntryKind::Directory)];
    let done = tab_complete("/var/", &items).unwrap();
    assert!(done.starts_with("/var/"));
    assert_eq!(done, "/var/l");
    let from_root = tab_complete("/", &vec![item("srv", EntryKind::Directory)]).unwrap();
    assert_eq!(from_root, "/srv/");
}
