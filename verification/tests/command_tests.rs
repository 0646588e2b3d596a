use edit_core::command::{Command, Key};
use edit_core::editor::Mode;

#[test]
fn normal_mode_key_map() {
    assert_eq!(Command::parse(Key::Char('q'), &Mode::Normal), Some(Command::Quit));
    assert_eq!(Command::parse(Key::Char('h'), &Mode::Normal), Some(Command::Move(-1, 0)));
    assert_eq!(Command::parse(Key::Char('l'), &Mode::Normal), Some(Command::Move(1, 0)));
    assert_eq!(Command::parse(Key::Char('j'), &Mode::Normal), Some(Command::Move(0, 1)));
    assert_eq!(Command::parse(Key::Char('k'), &Mode::Normal), Some(Command::Move(0, -1)));
    assert_eq!(Command::parse(Key::Char('s'), &Mode::Normal), Some(Command::Save));
}

#[test]
fn mode_sensitive_parse_of_i() {
    assert_eq!(Command::parse(Key::Char('i'), &Mode::Normal), Some(Command::ToggleMode));
    assert_eq!(Command::parse(Key::Char('i'), &Mode::Insert), Some(Command::Insert('i')));
}

#[test]
fn insert_mode_key_map() {
    assert_eq!(Command::parse(Key::Char('x'), &Mode::Insert), Some(Command::Insert('x')));
    assert_eq!(Command::parse(Key::Char('\n'), &Mode::Insert), Some(Command::InsertNewLine));
    assert_eq!(Command::parse(Key::Backspace, &Mode::Insert), Some(Command::Delete));
    assert_eq!(Command::parse(Key::Esc, &Mode::Insert), Some(Command::ToggleMode));
}

#[test]
fn unmapped_keys_yield_nothing() {
    assert_eq!(Command::parse(Key::Char('x'), &Mode::Normal), None);
    assert_eq!(Command::parse(Key::Backspace, &Mode::Normal), None);
    assert_eq!(Command::parse(Key::Esc, &Mode::Normal), None);
    assert_eq!(Command::parse(Key::Other, &Mode::Normal), None);
    assert_eq!(Command::parse(Key::Other, &Mode::Insert), None);
}
