//! Keys and one-line text inputs: a text with a cursor, edited through the
//! `tui-input` crate, and the key bindings of the search and path prompts.
use vstd::prelude::*;
use vstd::string::*;
use tui_input::InputRequest;

verus! {

broadcast use vstd::string::group_string_axioms;

// ---------------------------------------------------------------------------
// Keys
// ---------------------------------------------------------------------------

/// The key of a key press.
#[derive(Debug, Clone, Copy, PartialEq, Eq, Structural)]
pub enum KeyCode {
    Char(char),
    Enter,
    Esc,
    Up,
    Down,
    Left,
    Right,
    Tab,
    BackTab,
    Backspace,
    Delete,
    Home,
    End,
    PageUp,
    PageDown,
    Other,
}

/// The modifiers held during a key press: none, exactly Control, or any
/// other combination.
#[derive(Debug, Clone, Copy, PartialEq, Eq, Structural)]
pub enum Modifiers {
    Plain,
    Control,
    Other,
}

/// A key press.
#[derive(Debug, Clone, Copy, PartialEq, Eq, Structural)]
pub struct KeyPress {
    pub code: KeyCode,
    pub modifiers: Modifiers,
}

// ---------------------------------------------------------------------------
// Text inputs
// ---------------------------------------------------------------------------

/// A one-line text input: its text and the cursor, counted in characters
/// before it.
pub struct TextInput {
    pub value: String,
    pub cursor: usize,
}

impl TextInput {
    /// The input's well-formedness: the cursor lies within the text.
    pub open spec fn wf(&self) -> bool {
        self.cursor <= self.value@.len()
    }

    /// An empty input.
    pub fn new() -> (r: TextInput)
        ensures
            r.value@.len() == 0,
            r.cursor == 0,
            r.wf(),
    {
        TextInput { value: String::new(), cursor: 0 }
    }

    /// Empties the input.
    pub fn reset(&mut self)
        ensures
            final(self).value@.len() == 0,
            final(self).cursor == 0,
            final(self).wf(),
    {
        self.value = String::new();
        self.cursor = 0;
    }

    /// The input's text.
    pub fn value(&self) -> (r: &str)
        ensures
            r@ == self.value@,
    {
        self.value.as_str()
    }
}

/// An editing request.
#[derive(Debug, Clone, Copy, PartialEq, Eq, Structural)]
pub enum EditRequest {
    InsertChar(char),
    GoToPrevChar,
    GoToNextChar,
    GoToStart,
    GoToEnd,
    DeletePrevChar,
    DeleteNextChar,
    DeletePrevWord,
    DeleteLine,
}

/// What `tui_input::Input::handle` makes of a text, a cursor and a request:
/// the new text and cursor.
pub uninterp spec fn edit_result_of(value: Seq<char>, cursor: nat, req: EditRequest) -> (
    Seq<char>,
    nat,
);

/// What is known of an editing request's effect, taking a text `v` with the
/// cursor at `c` to the text `v2` with the cursor at `c2`: the cursor stays
/// within the text; inserting puts the character at the cursor and moves
/// the cursor past it; going to the start or end moves only the cursor
/// there; deleting the line empties the input; moving by a character keeps
/// the text; deleting before the start or after the end changes nothing.
pub open spec fn edit_facts(v: Seq<char>, c: nat, req: EditRequest, v2: Seq<char>, c2: nat) -> bool {
    &&& c2 <= v2.len()
    &&& req matches EditRequest::InsertChar(ch) ==> v2 == v.insert(c as int, ch) && c2 == c + 1
    &&& req is GoToStart ==> v2 == v && c2 == 0
    &&& req is GoToEnd ==> v2 == v && c2 == v.len()
    &&& req is DeleteLine ==> v2.len() == 0 && c2 == 0
    &&& req is GoToPrevChar || req is GoToNextChar ==> v2 == v
    &&& c == 0 && (req is DeletePrevChar || req is DeletePrevWord) ==> v2 == v && c2 == 0
    &&& c == v.len() && req is DeleteNextChar ==> v2 == v && c2 == c
}

/// `tui_input::Input::handle` on an input holding `value` with the cursor at
/// `cursor`; returns the new text and cursor. Claimed, from the crate's
/// source: the cursor stays within the text; inserting puts the character
/// at the cursor and moves the cursor past it; going to the start or end
/// moves only the cursor; deleting the line empties the input; moving by a
/// character keeps the text; nothing is deleted before the start or after
/// the end. Grapheme and word boundaries, which decide the other moves and
/// deletions, are not stated.
#[verifier::external_body]
fn input_handle(value: &str, cursor: usize, req: EditRequest) -> (r: (String, usize))
    requires
        cursor <= value@.len(),
    ensures
        (r.0@, r.1 as nat) == edit_result_of(value@, cursor as nat, req),
        edit_facts(value@, cursor as nat, req, r.0@, r.1 as nat),
{
    let mut input = tui_input::Input::new(value.to_string()).with_cursor(cursor);
    input.handle(match req {
        EditRequest::InsertChar(c) => InputRequest::InsertChar(c),
        EditRequest::GoToPrevChar => InputRequest::GoToPrevChar,
        EditRequest::GoToNextChar => InputRequest::GoToNextChar,
        EditRequest::GoToStart => InputRequest::GoToStart,
        EditRequest::GoToEnd => InputRequest::GoToEnd,
        EditRequest::DeletePrevChar => InputRequest::DeletePrevChar,
        EditRequest::DeleteNextChar => InputRequest::DeleteNextChar,
        EditRequest::DeletePrevWord => InputRequest::DeletePrevWord,
        EditRequest::DeleteLine => InputRequest::DeleteLine,
    });
    (input.value().to_string(), input.cursor())
}

impl TextInput {
    /// Applies an editing request.
    pub fn handle(&mut self, req: EditRequest)
        requires
            old(self).wf(),
        ensures
            final(self).wf(),
            (final(self).value@, final(self).cursor as nat) == edit_result_of(
                old(self).value@,
                old(self).cursor as nat,
                req,
            ),
            edit_facts(
                old(self).value@,
                old(self).cursor as nat,
                req,
                final(self).value@,
                final(self).cursor as nat,
            ),
    {
        let (v, c) = input_handle(self.value.as_str(), self.cursor, req);
        self.value = v;
        self.cursor = c;
    }

    /// Replaces the input with `text`, typed character by character into an
    /// empty input: the text is `text` and the cursor is at its end.
    pub fn set_by_typing(&mut self, text: &str)
        ensures
            final(self).wf(),
            final(self).value@ == text@,
            final(self).cursor == text@.len(),
    {
        self.reset();
        let cs = crate::text::chars_of(text);
        for i in 0..cs.len()
            invariant
                cs@ == text@,
                self.wf(),
                self.value@ == text@.take(i as int),
                self.cursor == i,
        {
            self.handle(EditRequest::InsertChar(cs[i]));
            proof {
                assert(text@.take(i as int).insert(i as int, cs@[i as int]) =~= text@.take(i + 1));
            }
        }
        proof {
            assert(text@.take(cs.len() as int) =~= text@);
        }
    }
}

// ---------------------------------------------------------------------------
// Prompt key bindings
// ---------------------------------------------------------------------------

/// Whether `c` is `lower` or its upper-case letter.
pub open spec fn letter_key(c: char, lower: char, upper: char) -> bool {
    c == lower || c == upper
}

/// The editing request a prompt makes of a key press, if any: Ctrl+A/E/U/W
/// go to the start, go to the end, delete the line and delete the previous
/// word; unmodified Home, End, characters, Backspace, Delete, Left and
/// Right edit as usual.
pub open spec fn prompt_request(key: KeyPress) -> Option<EditRequest> {
    match (key.modifiers, key.code) {
        (Modifiers::Control, KeyCode::Char(c)) => if letter_key(c, 'a', 'A') {
            Some(EditRequest::GoToStart)
        } else if letter_key(c, 'e', 'E') {
            Some(EditRequest::GoToEnd)
        } else if letter_key(c, 'u', 'U') {
            Some(EditRequest::DeleteLine)
        } else if letter_key(c, 'w', 'W') {
            Some(EditRequest::DeletePrevWord)
        } else {
            None
        },
        (Modifiers::Plain, KeyCode::Home) => Some(EditRequest::GoToStart),
        (Modifiers::Plain, KeyCode::End) => Some(EditRequest::GoToEnd),
        (Modifiers::Plain, KeyCode::Char(c)) => Some(EditRequest::InsertChar(c)),
        (Modifiers::Plain, KeyCode::Backspace) => Some(EditRequest::DeletePrevChar),
        (Modifiers::Plain, KeyCode::Delete) => Some(EditRequest::DeleteNextChar),
        (Modifiers::Plain, KeyCode::Left) => Some(EditRequest::GoToPrevChar),
        (Modifiers::Plain, KeyCode::Right) => Some(EditRequest::GoToNextChar),
        _ => None,
    }
}

fn prompt_request_of(key: KeyPress) -> (r: Option<EditRequest>)
    ensures
        r == prompt_request(key),
{
    match (key.modifiers, key.code) {
        (Modifiers::Control, KeyCode::Char(c)) => {
            if c == 'a' || c == 'A' {
                Some(EditRequest::GoToStart)
            } else if c == 'e' || c == 'E' {
                Some(EditRequest::GoToEnd)
            } else if c == 'u' || c == 'U' {
                Some(EditRequest::DeleteLine)
            } else if c == 'w' || c == 'W' {
                Some(EditRequest::DeletePrevWord)
            } else {
                None
            }
        },
        (Modifiers::Plain, KeyCode::Home) => Some(EditRequest::GoToStart),
        (Modifiers::Plain, KeyCode::End) => Some(EditRequest::GoToEnd),
        (Modifiers::Plain, KeyCode::Char(c)) => Some(EditRequest::InsertChar(c)),
        (Modifiers::Plain, KeyCode::Backspace) => Some(EditRequest::DeletePrevChar),
        (Modifiers::Plain, KeyCode::Delete) => Some(EditRequest::DeleteNextChar),
        (Modifiers::Plain, KeyCode::Left) => Some(EditRequest::GoToPrevChar),
        (Modifiers::Plain, KeyCode::Right) => Some(EditRequest::GoToNextChar),
        _ => None,
    }
}

/// Whether a key press changed a prompt's text.
pub open spec fn prompt_changed(before: TextInput, after: TextInput) -> bool {
    before.value@ != after.value@
}

/// How a prompt's input `before` becomes `after` on a key press, and
/// whether the caller should filter again (`changed`): keys that make no
/// request change nothing; others apply their request (with the effects
/// `edit_facts` lists), and count as a change exactly when the text changed.
pub open spec fn prompt_step(before: TextInput, key: KeyPress, after: TextInput, changed: bool) -> bool {
    &&& changed == prompt_changed(before, after)
    &&& match prompt_request(key) {
        None => after == before,
        Some(req) => {
            &&& (after.value@, after.cursor as nat) == edit_result_of(
                before.value@,
                before.cursor as nat,
                req,
            )
            &&& edit_facts(before.value@, before.cursor as nat, req, after.value@, after.cursor as nat)
        },
    }
}

/// Feeds a key press to a prompt's input. Returns whether the text changed,
/// so that the caller filters again.
pub fn handle_search_input(input: &mut TextInput, key: KeyPress) -> (r: bool)
    requires
        old(input).wf(),
    ensures
        final(input).wf(),
        prompt_step(*old(input), key, *final(input), r),
        r == (final(input).value@ != old(input).value@),
{
    match prompt_request_of(key) {
        Some(req) => {
            let before = String::from_str(input.value.as_str());
            input.handle(req);
            !crate::text::text_eq(before.as_str(), input.value.as_str())
        },
        None => false,
    }
}

} // verus!
