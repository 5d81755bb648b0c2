use deck::input::{map_key, Action, Key};

#[test]
fn next_keys() {
    assert!(matches!(map_key(Key::Right, false), Action::Next));
    assert!(matches!(map_key(Key::Char(' '), false), Action::Next));
    assert!(matches!(map_key(Key::Char('l'), false), Action::Next));
    assert!(matches!(map_key(Key::Char('j'), false), Action::Next));
}

#[test]
fn prev_keys() {
    assert!(matches!(map_key(Key::Left, false), Action::Prev));
    assert!(matches!(map_key(Key::Char('h'), false), Action::Prev));
    assert!(matches!(map_key(Key::Char('k'), false), Action::Prev));
}

#[test]
fn quit_keys() {
    assert!(matches!(map_key(Key::Char('q'), false), Action::Quit));
    assert!(matches!(map_key(Key::Esc, false), Action::Quit));
}

#[test]
fn goto_mode() {
    assert!(matches!(map_key(Key::Char(':'), false), Action::StartGoTo));
    assert!(matches!(map_key(Key::Char('5'), true), Action::GoToDigit('5')));
    assert!(matches!(map_key(Key::Enter, true), Action::GoToConfirm));
    assert!(matches!(map_key(Key::Esc, true), Action::GoToCancel));
}

#[test]
fn goto_ignores_non_digits() {
    assert!(matches!(map_key(Key::Char('a'), true), Action::Ignore));
}

#[test]
fn control_keys() {
    assert!(matches!(map_key(Key::Char('p'), false), Action::TogglePresenter));
    assert!(matches!(map_key(Key::Char('?'), false), Action::ToggleHelp));
    assert!(matches!(map_key(Key::Char('r'), false), Action::ResetTimer));
    assert!(matches!(map_key(Key::Char('g'), false), Action::First));
    assert!(matches!(map_key(Key::Char('G'), false), Action::Last));
}

#[test]
fn other_keys_do_nothing() {
    assert_eq!(map_key(Key::Other, false), Action::Ignore);
    assert_eq!(map_key(Key::Char('x'), false), Action::Ignore);
    assert_eq!(map_key(Key::Up, true), Action::Ignore);
    assert_eq!(map_key(Key::Down, false), Action::Next);
    assert_eq!(map_key(Key::Up, false), Action::Prev);
    assert_eq!(map_key(Key::Backspace, true), Action::GoToBackspace);
    assert_eq!(map_key(Key::Backspace, false), Action::Prev);
    assert_eq!(map_key(Key::Enter, false), Action::Next);
}
