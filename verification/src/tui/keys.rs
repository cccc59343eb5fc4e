//! Key presses.

use vstd::prelude::*;

verus! {

/// Which key was pressed.
#[derive(Debug, Clone, Copy, PartialEq, Eq, Structural)]
pub enum KeyCode {
    Char(char),
    Enter,
    Esc,
    Tab,
    BackTab,
    Backspace,
    Up,
    Down,
    Left,
    Right,
    PageUp,
    PageDown,
    Home,
    End,
    /// Any key that the interface gives no meaning to.
    Other,
}

/// A key press, with whether the control key was held down.
#[derive(Debug, Clone, Copy, PartialEq, Eq, Structural)]
pub struct KeyEvent {
    pub code: KeyCode,
    pub control: bool,
}

impl KeyEvent {
    /// The press of `code` alone.
    pub fn plain(code: KeyCode) -> (key: Self)
        ensures
            key == (KeyEvent { code, control: false }),
    {
        KeyEvent { code, control: false }
    }

    /// The press of `code` with the control key held down.
    pub fn with_control(code: KeyCode) -> (key: Self)
        ensures
            key == (KeyEvent { code, control: true }),
    {
        KeyEvent { code, control: true }
    }
}

/// `s` after a key was typed into it: characters go to the end, backspace takes the last away.
pub open spec fn typed(s: Seq<char>, code: KeyCode) -> Seq<char> {
    match code {
        KeyCode::Char(c) => s.push(c),
        KeyCode::Backspace => if s.len() > 0 {
            s.drop_last()
        } else {
            s
        },
        _ => s,
    }
}

/// Whether typing `code` changes a text at all.
pub open spec fn types(code: KeyCode) -> bool {
    code is Char || code is Backspace
}

/// `String::pop` takes the last character away, where there is one.
pub assume_specification[ std::string::String::pop ](s: &mut std::string::String) -> (last: Option<char>)
    ensures
        old(s)@.len() == 0 ==> last is None && final(s)@ == old(s)@,
        old(s)@.len() > 0 ==> last == Some(old(s)@.last()) && final(s)@ == old(s)@.drop_last(),
;

/// `String::clear` takes every character away.
pub assume_specification[ std::string::String::clear ](s: &mut std::string::String)
    ensures
        final(s)@ == Seq::<char>::empty(),
;

/// Types `key` into `field`.
pub fn handle_text_input(field: &mut String, key: KeyEvent)
    ensures
        final(field)@ == typed(old(field)@, key.code),
        !types(key.code) ==> *final(field) == *old(field),
{
    match key.code {
        KeyCode::Char(c) => {
            field.push(c);
        },
        KeyCode::Backspace => {
            let _ = field.pop();
        },
        _ => {},
    }
}

/// What is typed goes to the end of a text, and backspace takes it away again; no other key
/// changes the text.
pub proof fn lemma_typing_is_taken_back(s: Seq<char>, c: char, code: KeyCode)
    ensures
        typed(s, KeyCode::Char(c)) == s + seq![c],
        typed(typed(s, KeyCode::Char(c)), KeyCode::Backspace) == s,
        s.len() == 0 ==> typed(s, KeyCode::Backspace) == s,
        !(code is Char) && !(code is Backspace) ==> typed(s, code) == s,
{
    assert(s.push(c) =~= s + seq![c]);
    assert(s.push(c).drop_last() =~= s);
}

} // verus!
