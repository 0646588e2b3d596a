use edit_core::file::File;

fn round_trips(data: &[u8]) {
    let file = File::from_bytes(data);
    assert_eq!(file.to_bytes(), data.to_vec());
}

#[test]
fn round_trip_empty() {
    round_trips(b"");
}

#[test]
fn round_trip_no_trailing_newline() {
    round_trips(b"abc");
    round_trips(b"ab\ncd");
}

#[test]
fn round_trip_trailing_newline() {
    round_trips(b"abc\n");
    round_trips(b"ab\ncd\n");
}

#[test]
fn round_trip_only_newlines() {
    round_trips(b"\n");
    round_trips(b"\n\n\n");
}

#[test]
fn round_trip_invalid_utf8() {
    round_trips(&[0xFF, 0xFE, 0x0A, 0x00, 0x80]);
}

#[test]
fn empty_buffer_has_no_lines() {
    let file = File::new();
    assert_eq!(file.len(), 0);
    assert_eq!(file.to_bytes(), Vec::<u8>::new());
}

#[test]
fn line_count_without_trailing_newline() {
    let file = File::from_bytes(b"a\nb\nc");
    assert_eq!(file.len(), 3);
}

#[test]
fn line_count_with_trailing_newline() {
    // The closing newline of the last segment adds no extra line.
    let file = File::from_bytes(b"a\nb\nc\n");
    assert_eq!(file.len(), 3);
}

#[test]
fn line_count_edge_cases() {
    assert_eq!(File::from_bytes(b"").len(), 0);
    assert_eq!(File::from_bytes(b"\n").len(), 1);
    assert_eq!(File::from_bytes(b"\n\n").len(), 2);
    assert_eq!(File::from_bytes(b"a").len(), 1);
}

#[test]
fn get_line_in_and_out_of_range() {
    let file = File::from_bytes(b"ab\ncd\n");
    assert_eq!(file.get_line(0), Some(b"ab".to_vec()));
    assert_eq!(file.get_line(1), Some(b"cd".to_vec()));
    assert_eq!(file.get_line(2), None);
    assert_eq!(file.get_line(1000), None);
}
