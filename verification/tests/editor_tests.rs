use tuxpad::editor::{Editor, Mode, Status};
use tuxpad::{MAX_LINE_LENGTH, WINDOW_CAPACITY};

fn bytes(s: &str) -> Vec<u8> {
    s.as_bytes().to_vec()
}

fn editor_with(content: &str) -> Editor {
    let mut ed = Editor::new();
    let data = bytes(content);
    ed.load_file(bytes("doc.txt"), Some(&data));
    ed
}

fn window_lines(ed: &Editor) -> Vec<Vec<u8>> {
    ed.buffer.lines.clone()
}

#[test]
fn new_session_is_one_empty_unnamed_line() {
    let ed = Editor::new();
    assert_eq!(ed.buffer.total_lines, 1);
    assert_eq!(ed.buffer.get_line(0), Some(&bytes("")));
    assert_eq!(ed.mode, Mode::Normal);
    assert!(!ed.modified);
    assert!(ed.filename.is_none());
}

#[test]
fn save_after_load_round_trips_bytes() {
    let content = bytes("one\ntwo\nthree\nfour\nfive");
    let mut ed = Editor::new();
    ed.load_file(bytes("doc.txt"), Some(&content));
    assert_eq!(ed.save_content(), content);
}

#[test]
fn save_after_load_round_trips_empty_store() {
    let content = bytes("");
    let mut ed = Editor::new();
    ed.load_file(bytes("doc.txt"), Some(&content));
    assert_eq!(ed.save_content(), content);
}

#[test]
fn insert_then_delete_restores_line_and_cursor() {
    let mut ed = editor_with("hello");
    ed.mode = Mode::Insert;
    ed.cursor.x = 2;
    ed.insert_char(b'Z');
    assert_eq!(ed.buffer.get_line(0), Some(&bytes("heZllo")));
    assert_eq!(ed.cursor.x, 3);
    ed.delete_char();
    assert_eq!(ed.buffer.get_line(0), Some(&bytes("hello")));
    assert_eq!(ed.cursor.x, 2);
}

#[test]
fn insert_at_column_past_end_lands_at_end() {
    let mut ed = editor_with("ab");
    ed.mode = Mode::Insert;
    ed.cursor.x = 99;
    ed.insert_char(b'c');
    assert_eq!(ed.buffer.get_line(0), Some(&bytes("abc")));
    assert_eq!(ed.cursor.x, 3);
}

#[test]
fn insert_into_full_line_is_refused() {
    let long: String = "x".repeat(MAX_LINE_LENGTH);
    let mut ed = editor_with(&long);
    ed.mode = Mode::Insert;
    ed.insert_char(b'y');
    assert_eq!(ed.status, Status::LineTooLong);
    assert_eq!(ed.buffer.get_line(0).unwrap().len(), MAX_LINE_LENGTH);
    assert!(!ed.modified);
}

#[test]
fn backspace_at_column_zero_joins_lines() {
    let mut ed = editor_with("ab\ncd");
    ed.cursor.y = 1;
    ed.cursor.x = 0;
    ed.delete_char();
    assert_eq!(ed.buffer.total_lines, 1);
    assert_eq!(ed.buffer.get_line(0), Some(&bytes("abcd")));
    assert_eq!(ed.cursor.y, 0);
    assert_eq!(ed.cursor.x, 2);
}

#[test]
fn join_over_maximum_length_is_refused() {
    let a: String = "a".repeat(6000);
    let b: String = "b".repeat(5000);
    let mut ed = editor_with(&format!("{}\n{}", a, b));
    ed.cursor.y = 1;
    ed.cursor.x = 0;
    ed.delete_char();
    assert_eq!(ed.status, Status::CannotJoin);
    assert_eq!(ed.buffer.total_lines, 2);
    assert_eq!(ed.cursor.y, 1);
}

#[test]
fn insert_newline_splits_at_cursor() {
    let mut ed = editor_with("hello");
    ed.cursor.x = 2;
    ed.insert_newline();
    assert_eq!(ed.buffer.total_lines, 2);
    assert_eq!(ed.buffer.get_line(0), Some(&bytes("he")));
    assert_eq!(ed.buffer.get_line(1), Some(&bytes("llo")));
    assert_eq!(ed.cursor.y, 1);
    assert_eq!(ed.cursor.x, 0);
}

#[test]
fn cut_keeps_at_least_one_line_even_for_the_only_line() {
    let mut ed = editor_with("solo");
    ed.cut_line();
    assert_eq!(ed.buffer.total_lines, 1);
    assert_eq!(ed.buffer.get_line(0), Some(&bytes("")));
    assert_eq!(ed.clipboard, bytes("solo"));
    ed.cut_line();
    assert_eq!(ed.buffer.total_lines, 1);
    assert_eq!(ed.clipboard, bytes(""));
}

#[test]
fn cut_then_paste_at_last_line_restores_document() {
    let mut ed = editor_with("A\nB\nC\nD\nE");
    ed.move_cursor(0, 4);
    ed.cut_line();
    assert_eq!(ed.cursor.y, 3);
    ed.paste_line();
    assert_eq!(window_lines(&ed), vec![bytes("A"), bytes("B"), bytes("C"), bytes("D"), bytes("E")]);
    assert_eq!(ed.buffer.total_lines, 5);
}

#[test]
fn cut_midline_pastes_after_the_successor() {
    let mut ed = editor_with("A\nB\nC\nD\nE");
    ed.move_cursor(0, 2);
    ed.cut_line();
    assert_eq!(ed.clipboard, bytes("C"));
    assert_eq!(ed.cursor.y, 2);
    ed.paste_line();
    assert_eq!(window_lines(&ed), vec![bytes("A"), bytes("B"), bytes("D"), bytes("C"), bytes("E")]);
    assert_eq!(ed.cursor.y, 3);
    assert_eq!(ed.cursor.x, 0);
}

#[test]
fn paste_just_above_the_window_lands_on_its_first_line() {
    let mut ed = editor_with("A\nB\nC\nD");
    let data = bytes("A\nB\nC\nD");
    ed.clipboard = bytes("Z");
    ed.buffer.load_window(Some(&data), 2);
    ed.cursor.y = 1;
    assert!(ed.buffer.get_line(1).is_none());
    ed.paste_line();
    assert_eq!(ed.buffer.total_lines, 5);
    assert_eq!(ed.cursor.y, 2);
    assert_eq!(ed.cursor.x, 0);
    assert_eq!(ed.buffer.get_line(2), Some(&bytes("Z")));
    assert_eq!(ed.buffer.get_line(3), Some(&bytes("C")));
}

#[test]
fn copy_then_paste_duplicates_line() {
    let mut ed = editor_with("A\nB");
    ed.copy_line();
    assert_eq!(ed.clipboard, bytes("A"));
    assert_eq!(ed.status, Status::LineCopied);
    ed.paste_line();
    assert_eq!(window_lines(&ed), vec![bytes("A"), bytes("A"), bytes("B")]);
}

#[test]
fn move_clamps_into_document() {
    let mut ed = editor_with("A\nB\nC");
    ed.move_cursor(0, 99);
    assert_eq!(ed.cursor.y, 2);
    ed.move_cursor(0, -99);
    assert_eq!(ed.cursor.y, 0);
}

#[test]
fn vertical_move_reclamps_column() {
    let mut ed = editor_with("abcdef\nxy");
    ed.cursor.x = 5;
    ed.move_cursor(0, 1);
    assert_eq!(ed.cursor.y, 1);
    assert_eq!(ed.cursor.x, 1);
}

#[test]
fn insert_mode_allows_column_at_line_end() {
    let mut ed = editor_with("abc");
    ed.mode = Mode::Insert;
    ed.cursor.x = 2;
    ed.move_cursor(1, 0);
    assert_eq!(ed.cursor.x, 3);
    ed.move_cursor(1, 0);
    assert_eq!(ed.cursor.x, 3);
    ed.mode = Mode::Normal;
    ed.move_cursor(-1, 0);
    assert_eq!(ed.cursor.x, 2);
}

#[test]
fn moves_keep_cursor_in_document_and_reload_makes_it_resident() {
    let mut content: Vec<u8> = Vec::new();
    for i in 0..1500 {
        content.extend_from_slice(format!("line{}", i).as_bytes());
        if i != 1499 {
            content.push(b'\n');
        }
    }
    let mut ed = Editor::new();
    ed.load_file(bytes("big.txt"), Some(&content));
    ed.move_cursor(0, 1200);
    assert_eq!(ed.cursor.y, 1200);
    assert!(ed.cursor.y < ed.buffer.total_lines);
    assert!(ed.needs_reload);
    ed.apply_reload(Some(&content));
    assert!(!ed.needs_reload);
    assert!(ed.buffer.get_line(ed.cursor.y).is_some());
    ed.move_cursor(0, -700);
    assert_eq!(ed.cursor.y, 500);
    assert!(ed.cursor.y < ed.buffer.total_lines);
}

#[test]
fn miss_insert_reloads_once_then_applies_char() {
    let mut content: Vec<u8> = Vec::new();
    for i in 0..1500 {
        content.extend_from_slice(format!("line{}", i).as_bytes());
        if i != 1499 {
            content.push(b'\n');
        }
    }
    let mut ed = Editor::new();
    ed.load_file(bytes("big.txt"), Some(&content));
    ed.mode = Mode::Insert;
    ed.cursor.y = 1200;
    assert!(ed.buffer.get_line(1200).is_none());
    ed.insert_char(b'Z');
    assert!(ed.needs_reload);
    assert_eq!(ed.pending_insert, Some(b'Z'));
    assert!(ed.buffer.get_line(1200).is_none());
    ed.apply_reload(Some(&content));
    assert_eq!(ed.buffer.get_line(1200), Some(&bytes("Zline1200")));
    assert_eq!(ed.cursor.x, 1);
    assert!(ed.modified);
    assert_eq!(ed.pending_insert, None);
}

#[test]
fn search_reports_matches_in_ascending_order() {
    let ed = editor_with("a foo b\nnothing\nfoo at start");
    let found = ed.search(&bytes("foo"));
    assert_eq!(found, vec![(0, 2), (2, 0)]);
}

#[test]
fn search_finds_overlapping_occurrences() {
    let ed = editor_with("aaaa");
    let found = ed.search(&bytes("aa"));
    assert_eq!(found, vec![(0, 0), (0, 1), (0, 2)]);
}

#[test]
fn search_empty_query_yields_no_matches() {
    let ed = editor_with("anything");
    assert_eq!(ed.search(&bytes("")).len(), 0);
}

#[test]
fn search_caps_at_one_hundred_matches() {
    let line = "foo".repeat(150);
    let ed = editor_with(&line);
    let found = ed.search(&bytes("foo"));
    assert_eq!(found.len(), 100);
    for k in 0..found.len() {
        assert_eq!(found[k], (0, 3 * k));
    }
}

#[test]
fn replace_in_window_rewrites_and_counts() {
    let mut ed = editor_with("cat cat");
    let count = ed.replace_in_window(&bytes("cat"), &bytes("dog"));
    assert_eq!(count, 2);
    assert_eq!(ed.buffer.get_line(0), Some(&bytes("dog dog")));
    assert!(ed.modified);
}

#[test]
fn replace_counts_every_resident_line() {
    let mut ed = editor_with("cat\nbird\ncat cat");
    let count = ed.replace_in_window(&bytes("cat"), &bytes("dog"));
    assert_eq!(count, 3);
    assert_eq!(ed.buffer.get_line(0), Some(&bytes("dog")));
    assert_eq!(ed.buffer.get_line(1), Some(&bytes("bird")));
    assert_eq!(ed.buffer.get_line(2), Some(&bytes("dog dog")));
}

#[test]
fn replace_with_empty_search_does_nothing() {
    let mut ed = editor_with("cat");
    let count = ed.replace_in_window(&bytes(""), &bytes("dog"));
    assert_eq!(count, 0);
    assert_eq!(ed.buffer.get_line(0), Some(&bytes("cat")));
    assert!(!ed.modified);
}

#[test]
fn replace_clipping_counts_as_one() {
    let base: String = "ab".repeat(MAX_LINE_LENGTH / 2);
    let mut ed = editor_with(&base);
    let count = ed.replace_in_window(&bytes("ab"), &bytes("abc"));
    assert_eq!(count, 1);
    assert_eq!(ed.buffer.get_line(0).unwrap().len(), MAX_LINE_LENGTH);
}

#[test]
fn update_scroll_follows_cursor() {
    let mut ed = editor_with("A\nB\nC\nD\nE\nF\nG\nH");
    ed.cursor.y = 6;
    ed.update_scroll(3);
    assert_eq!(ed.offset_y, 4);
    ed.cursor.y = 1;
    ed.update_scroll(3);
    assert_eq!(ed.offset_y, 1);
    ed.cursor.y = 2;
    ed.update_scroll(3);
    assert_eq!(ed.offset_y, 1);
}

#[test]
fn finish_save_reports_each_outcome() {
    let mut ed = editor_with("x");
    ed.modified = true;
    ed.finish_save(true);
    assert!(!ed.modified);
    assert_eq!(ed.status, Status::Saved);
    ed.modified = true;
    ed.finish_save(false);
    assert!(ed.modified);
    assert_eq!(ed.status, Status::SaveFailed);
}

#[test]
fn load_failed_keeps_session_usable() {
    let mut ed = Editor::new();
    ed.load_failed();
    assert_eq!(ed.status, Status::LoadFailed);
    assert_eq!(ed.buffer.total_lines, 1);
}

#[test]
fn undo_log_captures_line_before_mutation() {
    let mut ed = editor_with("abc");
    ed.mode = Mode::Insert;
    ed.insert_char(b'x');
    assert_eq!(ed.undo_buffer.len(), 1);
    assert_eq!(ed.undo_buffer[0], bytes("abc"));
}

#[test]
fn undo_log_evicts_oldest_past_capacity() {
    let mut ed = editor_with("abc");
    ed.mode = Mode::Insert;
    ed.cursor.x = 0;
    for _ in 0..60 {
        ed.insert_char(b'y');
    }
    assert_eq!(ed.undo_buffer.len(), 50);
    assert_eq!(ed.undo_buffer[49].len(), 3 + 59);
}

#[test]
fn save_writes_only_the_resident_window() {
    let mut content: Vec<u8> = Vec::new();
    let mut expected: Vec<u8> = Vec::new();
    for i in 0..1500 {
        let line = format!("line{}", i);
        content.extend_from_slice(line.as_bytes());
        if i != 1499 {
            content.push(b'\n');
        }
        if i < WINDOW_CAPACITY {
            if i > 0 {
                expected.push(b'\n');
            }
            expected.extend_from_slice(line.as_bytes());
        }
    }
    let mut ed = Editor::new();
    ed.load_file(bytes("big.txt"), Some(&content));
    assert_eq!(ed.buffer.lines.len(), WINDOW_CAPACITY);
    assert_eq!(ed.save_content(), expected);
}

#[test]
fn window_capacity_matches_editor_buffer() {
    let ed = Editor::new();
    assert_eq!(ed.buffer.max_lines, WINDOW_CAPACITY);
}
