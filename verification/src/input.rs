//! Keyboard input: the keys the presentation reacts to and the action each
//! one asks for.

use vstd::prelude::*;

verus! {

/// A key press, reduced to what the presentation distinguishes.
#[derive(Debug, Clone, Copy, PartialEq, Eq, Structural)]
pub enum Key {
    Char(char),
    Enter,
    Esc,
    Backspace,
    Left,
    Right,
    Up,
    Down,
    /// Any other key.
    Other,
}

/// What a key press asks the presentation to do.
#[derive(Debug, Clone, Copy, PartialEq, Eq, Structural)]
pub enum Action {
    Next,
    Prev,
    First,
    Last,
    TogglePresenter,
    ToggleHelp,
    StartGoTo,
    GoToConfirm,
    GoToDigit(char),
    GoToBackspace,
    GoToCancel,
    ResetTimer,
    Quit,
    /// The key means nothing here.
    Ignore,
}

/// The action of `key`; `in_goto` is set while a slide number is typed.
pub open spec fn key_action(key: Key, in_goto: bool) -> Action {
    if in_goto {
        match key {
            Key::Enter => Action::GoToConfirm,
            Key::Esc => Action::GoToCancel,
            Key::Char(c) => if '0' <= c && c <= '9' {
                Action::GoToDigit(c)
            } else {
                Action::Ignore
            },
            Key::Backspace => Action::GoToBackspace,
            _ => Action::Ignore,
        }
    } else {
        match key {
            Key::Right | Key::Down | Key::Enter => Action::Next,
            Key::Left | Key::Up | Key::Backspace => Action::Prev,
            Key::Esc => Action::Quit,
            Key::Char(c) => if c == ' ' || c == 'l' || c == 'j' {
                Action::Next
            } else if c == 'h' || c == 'k' {
                Action::Prev
            } else if c == 'g' {
                Action::First
            } else if c == 'G' {
                Action::Last
            } else if c == 'p' {
                Action::TogglePresenter
            } else if c == '?' {
                Action::ToggleHelp
            } else if c == ':' {
                Action::StartGoTo
            } else if c == 'r' {
                Action::ResetTimer
            } else if c == 'q' {
                Action::Quit
            } else {
                Action::Ignore
            },
            Key::Other => Action::Ignore,
        }
    }
}

/// Maps a key press to its action.
pub fn map_key(key: Key, in_goto: bool) -> (r: Action)
    ensures
        r == key_action(key, in_goto),
{
    if in_goto {
        return match key {
            Key::Enter => Action::GoToConfirm,
            Key::Esc => Action::GoToCancel,
            Key::Char(c) => if '0' <= c && c <= '9' {
                Action::GoToDigit(c)
            } else {
                Action::Ignore
            },
            Key::Backspace => Action::GoToBackspace,
            _ => Action::Ignore,
        };
    }
    match key {
        Key::Right | Key::Down | Key::Enter => Action::Next,
        Key::Left | Key::Up | Key::Backspace => Action::Prev,
        Key::Esc => Action::Quit,
        Key::Char(c) => if c == ' ' || c == 'l' || c == 'j' {
            Action::Next
        } else if c == 'h' || c == 'k' {
            Action::Prev
        } else if c == 'g' {
            Action::First
        } else if c == 'G' {
            Action::Last
        } else if c == 'p' {
            Action::TogglePresenter
        } else if c == '?' {
            Action::ToggleHelp
        } else if c == ':' {
            Action::StartGoTo
        } else if c == 'r' {
            Action::ResetTimer
        } else if c == 'q' {
            Action::Quit
        } else {
            Action::Ignore
        },
        Key::Other => Action::Ignore,
    }
}


} // verus!
