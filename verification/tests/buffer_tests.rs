use tuxpad::buffer::LineBuffer;
use tuxpad::MAX_LINE_LENGTH;

fn bytes(s: &str) -> Vec<u8> {
    s.as_bytes().to_vec()
}

#[test]
fn load_from_absent_store_yields_one_empty_line() {
    let mut buf = LineBuffer::new(8);
    buf.load_window(None, 0);
    assert_eq!(buf.total_lines, 1);
    assert_eq!(buf.start_line_number, 0);
    assert_eq!(buf.get_line(0), Some(&bytes("")));
}

#[test]
fn load_from_empty_store_yields_one_empty_line() {
    let mut buf = LineBuffer::new(8);
    buf.load_window(Some(&bytes("")), 0);
    assert_eq!(buf.total_lines, 1);
    assert_eq!(buf.get_line(0), Some(&bytes("")));
}

#[test]
fn load_clamps_desired_start_into_document() {
    let mut buf = LineBuffer::new(2);
    buf.load_window(Some(&bytes("a\nb\nc\nd")), 99);
    assert_eq!(buf.total_lines, 4);
    assert_eq!(buf.start_line_number, 3);
    assert_eq!(buf.get_line(3), Some(&bytes("d")));
    assert_eq!(buf.get_line(0), None);
}

#[test]
fn load_fills_at_most_capacity_lines() {
    let mut buf = LineBuffer::new(2);
    buf.load_window(Some(&bytes("a\nb\nc\nd")), 1);
    assert_eq!(buf.total_lines, 4);
    assert_eq!(buf.start_line_number, 1);
    assert_eq!(buf.get_line(1), Some(&bytes("b")));
    assert_eq!(buf.get_line(2), Some(&bytes("c")));
    assert_eq!(buf.get_line(3), None);
}

#[test]
fn load_clips_overlong_lines_to_maximum() {
    let long = vec![b'x'; MAX_LINE_LENGTH + 50];
    let mut buf = LineBuffer::new(4);
    buf.load_window(Some(&long), 0);
    assert_eq!(buf.total_lines, 1);
    assert_eq!(buf.get_line(0).unwrap().len(), MAX_LINE_LENGTH);
}

#[test]
fn get_line_misses_outside_window() {
    let mut buf = LineBuffer::new(8);
    buf.load_window(Some(&bytes("a\nb")), 0);
    assert!(buf.get_line(0).is_some());
    assert!(buf.get_line(1).is_some());
    assert!(buf.get_line(2).is_none());
}

#[test]
fn get_line_mut_edits_in_place() {
    let mut buf = LineBuffer::new(8);
    buf.load_window(Some(&bytes("ab\ncd")), 0);
    let line = buf.get_line_mut(1).unwrap();
    line.push(b'!');
    assert_eq!(buf.get_line(1), Some(&bytes("cd!")));
    assert!(buf.get_line_mut(5).is_none());
}

#[test]
fn insert_line_inside_window_grows_document() {
    let mut buf = LineBuffer::new(8);
    buf.load_window(Some(&bytes("a\nc")), 0);
    buf.insert_line(1, bytes("b"));
    assert_eq!(buf.total_lines, 3);
    assert_eq!(buf.get_line(0), Some(&bytes("a")));
    assert_eq!(buf.get_line(1), Some(&bytes("b")));
    assert_eq!(buf.get_line(2), Some(&bytes("c")));
}

#[test]
fn insert_line_outside_window_is_a_miss() {
    let mut buf = LineBuffer::new(8);
    buf.load_window(Some(&bytes("a\nb")), 0);
    buf.insert_line(5, bytes("zzz"));
    assert_eq!(buf.total_lines, 2);
    assert_eq!(buf.get_line(0), Some(&bytes("a")));
}

#[test]
fn insert_line_past_capacity_evicts_last_resident_line() {
    let mut buf = LineBuffer::new(2);
    buf.load_window(Some(&bytes("a\nb")), 0);
    buf.insert_line(0, bytes("new"));
    assert_eq!(buf.total_lines, 3);
    assert_eq!(buf.get_line(0), Some(&bytes("new")));
    assert_eq!(buf.get_line(1), Some(&bytes("a")));
    assert_eq!(buf.get_line(2), None);
}

#[test]
fn remove_line_returns_the_line_and_keeps_floor_of_one() {
    let mut buf = LineBuffer::new(8);
    buf.load_window(Some(&bytes("only")), 0);
    assert_eq!(buf.remove_line(0), Some(bytes("only")));
    assert_eq!(buf.total_lines, 1);
    assert_eq!(buf.remove_line(0), None);
    assert_eq!(buf.total_lines, 1);
}
