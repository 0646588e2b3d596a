use edit_core::file::File;
use edit_core::view::View;

#[test]
fn view_new() {
    let view = View::new(File::new(), 10, 10);
    assert_eq!(view.start_line, 0);
    assert_eq!(view.start_col, 0);
    assert_eq!(view.height, 10);
    assert_eq!(view.width, 10);
}

#[test]
fn view_to_string() {
    let view = View::new(File::from_bytes(b"Hello, World !\n"), 1, 10);
    assert_eq!(view.render_text(), "Hello, Wor");
}

#[test]
fn view_resize() {
    let mut view = View::new(File::new(), 10, 10);
    view.resize(20, 20);
    assert_eq!(view.height, 20);
    assert_eq!(view.width, 20);
}

#[test]
fn view_get_line() {
    let view = View::new(File::from_bytes(b"Hello, World !\n"), 1, 10);
    assert_eq!(view.get_line(0), "Hello, Wor");
}

#[test]
fn render_empty_buffer() {
    let view = View::new(File::new(), 10, 20);
    assert_eq!(view.render_text(), "");
}

#[test]
fn render_joins_visible_rows_with_newlines() {
    let view = View::new(File::from_bytes(b"abcdef\nxy"), 2, 4);
    assert_eq!(view.render_text(), "abcd\nxy");
}

#[test]
fn render_stops_at_buffer_end() {
    let view = View::new(File::from_bytes(b"ab"), 5, 10);
    assert_eq!(view.render_text(), "ab");
}

#[test]
fn visible_line_clamps_to_width_and_length() {
    // Lines shorter than, equal to, and longer than the viewport width.
    let view = View::new(File::from_bytes(b"ab\nabcde\nabcdefghij"), 3, 5);
    assert_eq!(view.visible_line(0), b"ab".to_vec());
    assert_eq!(view.visible_line(1), b"abcde".to_vec());
    assert_eq!(view.visible_line(2), b"abcde".to_vec());
    // Rows beyond the end of the buffer are empty.
    assert_eq!(view.visible_line(3), Vec::<u8>::new());
    assert_eq!(view.visible_line(1000), Vec::<u8>::new());
}

#[test]
fn visible_line_honours_start_col() {
    let mut view = View::new(File::from_bytes(b"abcdefghij\nxy"), 2, 3);
    view.navigate(4, 0);
    // The window follows the cursor: start_col moved to 2.
    assert_eq!(view.start_col, 2);
    assert_eq!(view.visible_line(0), b"cde".to_vec());
    // The short line is clamped to its true length past start_col.
    assert_eq!(view.visible_line(1), Vec::<u8>::new());
}

#[test]
fn navigate_clamps_at_zero() {
    let mut view = View::new(File::new(), 10, 10);
    view.navigate(-1, -1);
    assert_eq!(view.cursor, (0, 0));
    view.navigate(5, 5);
    assert_eq!(view.cursor, (5, 5));
    view.navigate(-2, -3);
    assert_eq!(view.cursor, (3, 2));
    view.navigate(-10, -10);
    assert_eq!(view.cursor, (0, 0));
}

#[test]
fn navigate_scrolls_window() {
    let mut view = View::new(File::from_bytes(b"a\nb\nc\nd\ne"), 2, 2);
    view.navigate(0, 4);
    assert_eq!(view.cursor, (0, 4));
    assert_eq!(view.start_line, 3);
    view.navigate(4, 0);
    assert_eq!(view.cursor, (4, 4));
    assert_eq!(view.start_col, 3);
    view.navigate(-4, -4);
    assert_eq!(view.cursor, (0, 0));
    assert_eq!(view.start_line, 0);
    assert_eq!(view.start_col, 0);
}

#[test]
fn resize_scrolls_cursor_back_into_view() {
    let mut view = View::new(File::from_bytes(b"a\nb\nc\nd\ne"), 10, 10);
    view.navigate(0, 4);
    assert_eq!(view.start_line, 0);
    view.resize(2, 10);
    assert_eq!(view.height, 2);
    assert_eq!(view.width, 10);
    assert_eq!(view.start_line, 3);
    assert_eq!(view.cursor, (0, 4));
}

#[test]
fn invalid_bytes_render_substituted() {
    let view = View::new(File::from_bytes(&[0xFF, 0x41]), 1, 10);
    assert_eq!(view.get_line(0), "\u{FFFD}A");
}

#[test]
fn delete_merges_lines_at_column_zero() {
    let mut view = View::new(File::from_bytes(b"ab\ncd"), 10, 10);
    view.navigate(0, 1);
    view.delete();
    assert_eq!(view.dump_file(), b"abcd".to_vec());
    assert_eq!(view.cursor, (2, 0));
    assert_eq!(view.file.lines.len(), 1);
}

#[test]
fn delete_at_origin_is_a_no_op() {
    let mut view = View::new(File::from_bytes(b"ab\ncd"), 10, 10);
    view.delete();
    assert_eq!(view.dump_file(), b"ab\ncd".to_vec());
    assert_eq!(view.cursor, (0, 0));
}

#[test]
fn delete_removes_byte_before_cursor() {
    let mut view = View::new(File::from_bytes(b"abc"), 10, 10);
    view.navigate(2, 0);
    view.delete();
    assert_eq!(view.dump_file(), b"ac".to_vec());
    assert_eq!(view.cursor, (1, 0));
}

#[test]
fn insert_advances_cursor() {
    let mut view = View::new(File::new(), 10, 10);
    view.insert('h');
    view.insert('i');
    assert_eq!(view.dump_file(), b"hi".to_vec());
    assert_eq!(view.cursor, (2, 0));
}

#[test]
fn insert_stores_low_byte_of_wide_character() {
    let mut view = View::new(File::new(), 10, 10);
    view.insert('\u{E9}');
    assert_eq!(view.dump_file(), vec![0xE9u8]);
}

#[test]
fn insert_new_line_splits_at_cursor() {
    let mut view = View::new(File::from_bytes(b"abcd"), 10, 10);
    view.navigate(2, 0);
    view.insert_new_line();
    assert_eq!(view.dump_file(), b"ab\ncd".to_vec());
    assert_eq!(view.cursor, (0, 1));
}

#[test]
fn insert_new_line_in_empty_buffer() {
    let mut view = View::new(File::new(), 10, 10);
    view.insert_new_line();
    assert_eq!(view.dump_file(), b"\n".to_vec());
    assert_eq!(view.cursor, (0, 1));
}

#[test]
fn insert_clamps_cursor_past_end() {
    let mut view = View::new(File::from_bytes(b"ab"), 10, 10);
    view.navigate(100, 100);
    view.insert('x');
    assert_eq!(view.dump_file(), b"abx".to_vec());
    assert_eq!(view.cursor, (3, 0));
}
