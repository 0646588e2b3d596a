use edit_core::command::Command;
use edit_core::editor::{save_protocol, temp_path, Editor, Mode, Signal};

#[test]
fn new_editor_starts_in_normal_mode() {
    let editor = Editor::new(Some("notes.txt"));
    assert!(matches!(editor.mode, Mode::Normal));
    assert_eq!(editor.file_name, Some("notes.txt".to_string()));
    assert_eq!(editor.view.file.lines.len(), 0);
    assert_eq!(editor.view.height, 10);
    assert_eq!(editor.view.width, 20);
    let editor = Editor::new(None);
    assert_eq!(editor.file_name, None);
}

#[test]
fn with_content_loads_buffer() {
    let editor = Editor::with_content("f.txt", b"x\ny\n");
    assert_eq!(editor.file_name, Some("f.txt".to_string()));
    assert_eq!(editor.view.file.lines.len(), 2);
    assert_eq!(editor.view.dump_file(), b"x\ny\n".to_vec());
}

#[test]
fn toggle_mode_twice_restores_mode() {
    let mut editor = Editor::new(None);
    assert!(matches!(editor.mode, Mode::Normal));
    editor.execute(Command::ToggleMode);
    assert!(matches!(editor.mode, Mode::Insert));
    editor.execute(Command::ToggleMode);
    assert!(matches!(editor.mode, Mode::Normal));
    // And again from Insert.
    editor.execute(Command::ToggleMode);
    editor.execute(Command::ToggleMode);
    editor.execute(Command::ToggleMode);
    assert!(matches!(editor.mode, Mode::Insert));
}

#[test]
fn quit_signals_termination_without_touching_state() {
    let mut editor = Editor::with_content("f.txt", b"abc");
    let signal = editor.execute(Command::Quit);
    assert!(matches!(signal, Signal::Terminate));
    assert_eq!(editor.view.dump_file(), b"abc".to_vec());
}

#[test]
fn save_yields_exact_serialized_content() {
    let mut editor = Editor::with_content("f.txt", b"x\ny\n");
    let signal = editor.execute(Command::Save);
    match signal {
        Signal::SaveRequest { path, content } => {
            assert_eq!(path, "f.txt".to_string());
            assert_eq!(content, b"x\ny\n".to_vec());
        },
        _ => panic!("expected a save request"),
    }
}

#[test]
fn save_without_path_is_surfaced() {
    let mut editor = Editor::new(None);
    let signal = editor.execute(Command::Save);
    assert!(matches!(signal, Signal::SavePathMissing));
}

#[test]
fn move_command_navigates() {
    let mut editor = Editor::with_content("f.txt", b"abcd\nefgh");
    editor.execute(Command::Move(2, 1));
    assert_eq!(editor.view.cursor, (2, 1));
    editor.execute(Command::Move(-5, -5));
    assert_eq!(editor.view.cursor, (0, 0));
}

#[test]
fn edit_commands_reach_the_buffer() {
    let mut editor = Editor::new(None);
    editor.execute(Command::ToggleMode);
    editor.execute(Command::Insert('a'));
    editor.execute(Command::Insert('b'));
    editor.execute(Command::InsertNewLine);
    editor.execute(Command::Insert('c'));
    assert_eq!(editor.view.dump_file(), b"ab\nc".to_vec());
    editor.execute(Command::Delete);
    assert_eq!(editor.view.dump_file(), b"ab\n".to_vec());
}

#[test]
fn temp_path_sits_beside_target() {
    assert_eq!(temp_path("notes.txt"), "notes.txt.tmp".to_string());
}

#[test]
fn failed_write_leaves_target_unchanged() {
    let before = Some(b"old".to_vec());
    let after = save_protocol(before.clone(), b"new".to_vec(), false, true);
    assert_eq!(after, before);
    let after = save_protocol(before.clone(), b"new".to_vec(), false, false);
    assert_eq!(after, before);
}

#[test]
fn failed_rename_leaves_target_unchanged() {
    let before = Some(b"old".to_vec());
    let after = save_protocol(before.clone(), b"new".to_vec(), true, false);
    assert_eq!(after, before);
}

#[test]
fn successful_save_installs_full_content() {
    let before = Some(b"old".to_vec());
    let after = save_protocol(before, b"new".to_vec(), true, true);
    assert_eq!(after, Some(b"new".to_vec()));
    // A first save may also create the target.
    let after = save_protocol(None, b"new".to_vec(), true, true);
    assert_eq!(after, Some(b"new".to_vec()));
}
