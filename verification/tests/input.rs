use logia_rs::input::{handle_search_input, EditRequest, KeyCode, KeyPress, Modifiers, TextInput};

fn plain(code: KeyCode) -> KeyPress {
    KeyPress { code, modifiers: Modifiers::Plain }
}

fn ctrl(c: char) -> KeyPress {
    KeyPress { code: KeyCode::Char(c), modifiers: Modifiers::Control }
}

#[test]
fn typing_inserts_at_the_cursor() {
    let mut input = TextInput::new();
    assert!(handle_search_input(&mut input, plain(KeyCode::Char('a'))));
    assert!(handle_search_input(&mut input, plain(KeyCode::Char('c'))));
    assert!(!handle_search_input(&mut input, plain(KeyCode::Left)));
    assert!(handle_search_input(&mut input, plain(KeyCode::Char('b'))));
    assert_eq!(input.value(), "abc");
    assert_eq!(input.cursor, 2);
}

#[test]
fn control_keys_edit_the_line() {
    let mut input = TextInput::new();
    input.set_by_typing("error disk");
    assert!(!handle_search_input(&mut input, ctrl('a')));
    assert_eq!(input.cursor, 0);
    assert!(!handle_search_input(&mut input, ctrl('E')));
    assert_eq!(input.cursor, 10);
    assert!(handle_search_input(&mut input, ctrl('w')));
    assert_eq!(input.value(), "error ");
    assert!(handle_search_input(&mut input, ctrl('u')));
    assert_eq!(input.value(), "");
    assert_eq!(input.cursor, 0);
}

#[test]
fn other_keys_change_nothing() {
    let mut input = TextInput::new();
    input.set_by_typing("x");
    assert!(!handle_search_input(&mut input, ctrl('z')));
    assert!(!handle_search_input(&mut input, plain(KeyCode::Tab)));
    assert!(!handle_search_input(
        &mut input,
        KeyPress { code: KeyCode::Char('y'), modifiers: Modifiers::Other }
    ));
    assert_eq!(input.value(), "x");
    assert_eq!(input.cursor, 1);
}

#[test]
fn only_a_changed_text_counts_as_a_change() {
    let mut input = TextInput::new();
    assert!(!handle_search_input(&mut input, plain(KeyCode::Backspace)));
    assert!(!handle_search_input(&mut input, plain(KeyCode::Delete)));
    assert!(!handle_search_input(&mut input, ctrl('u')));
    assert!(!handle_search_input(&mut input, ctrl('w')));
    assert_eq!(input.value(), "");
    input.set_by_typing("ab");
    assert!(!handle_search_input(&mut input, plain(KeyCode::Home)));
    assert!(!handle_search_input(&mut input, plain(KeyCode::Backspace)));
    assert!(handle_search_input(&mut input, plain(KeyCode::Delete)));
    assert_eq!(input.value(), "b");
    assert!(!handle_search_input(&mut input, plain(KeyCode::End)));
    assert!(!handle_search_input(&mut input, plain(KeyCode::Delete)));
    assert!(handle_search_input(&mut input, plain(KeyCode::Backspace)));
    assert_eq!(input.value(), "");
    input.set_by_typing("xy");
    assert!(handle_search_input(&mut input, ctrl('U')));
    assert_eq!(input.value(), "");
    assert_eq!(input.cursor, 0);
}

#[test]
fn requests_and_reset() {
    let mut input = TextInput::new();
    input.set_by_typing("héllo");
    assert_eq!(input.cursor, 5);
    input.handle(EditRequest::GoToStart);
    input.handle(EditRequest::GoToNextChar);
    input.handle(EditRequest::DeleteNextChar);
    assert_eq!(input.value(), "hllo");
    input.reset();
    assert_eq!(input.value(), "");
    assert_eq!(input.cursor, 0);
}
