use tuxpad::text::{bytes_eq, copy_range, find_in_line, join_window, replace_count_line, split_content, trim_blanks};

fn bytes(s: &str) -> Vec<u8> {
    s.as_bytes().to_vec()
}

#[test]
fn split_plain_lines() {
    let out = split_content(&bytes("alpha\nbeta\ngamma"));
    assert_eq!(out.len(), 3);
    assert_eq!(out[0], bytes("alpha"));
    assert_eq!(out[1], bytes("beta"));
    assert_eq!(out[2], bytes("gamma"));
}

#[test]
fn split_trailing_newline_opens_no_line() {
    let out = split_content(&bytes("alpha\nbeta\n"));
    assert_eq!(out.len(), 2);
    assert_eq!(out[1], bytes("beta"));
}

#[test]
fn split_empty_content_has_no_lines() {
    let out = split_content(&bytes(""));
    assert_eq!(out.len(), 0);
}

#[test]
fn split_strips_carriage_return_before_separator() {
    let out = split_content(&bytes("alpha\r\nbeta"));
    assert_eq!(out.len(), 2);
    assert_eq!(out[0], bytes("alpha"));
    assert_eq!(out[1], bytes("beta"));
}

#[test]
fn split_lone_separator_is_one_empty_line() {
    let out = split_content(&bytes("\n"));
    assert_eq!(out.len(), 1);
    assert_eq!(out[0], bytes(""));
}

#[test]
fn join_separates_lines_without_trailing_newline() {
    let lines = vec![bytes("alpha"), bytes("beta"), bytes("gamma")];
    assert_eq!(join_window(&lines), bytes("alpha\nbeta\ngamma"));
}

#[test]
fn join_single_line_is_bare() {
    let lines = vec![bytes("solo")];
    assert_eq!(join_window(&lines), bytes("solo"));
}

#[test]
fn split_then_join_round_trips() {
    let content = bytes("one\ntwo\nthree\nfour");
    let lines = split_content(&content);
    assert_eq!(join_window(&lines), content);
}

#[test]
fn find_in_line_reports_first_position() {
    let line = bytes("abcabc");
    let pat = bytes("bc");
    assert_eq!(find_in_line(&line, &pat, 0), Some(1));
    assert_eq!(find_in_line(&line, &pat, 2), Some(4));
    assert_eq!(find_in_line(&line, &pat, 5), None);
}

#[test]
fn replace_count_line_substitutes_globally() {
    let (out, count) = replace_count_line(&bytes("cat cat"), &bytes("cat"), &bytes("dog"));
    assert_eq!(out, bytes("dog dog"));
    assert_eq!(count, 2);
}

#[test]
fn replace_count_line_without_match_is_identity() {
    let (out, count) = replace_count_line(&bytes("bird"), &bytes("cat"), &bytes("dog"));
    assert_eq!(out, bytes("bird"));
    assert_eq!(count, 0);
}

#[test]
fn replace_with_longer_text_grows_line() {
    let (out, count) = replace_count_line(&bytes("a-a"), &bytes("a"), &bytes("aaa"));
    assert_eq!(out, bytes("aaa-aaa"));
    assert_eq!(count, 2);
}

#[test]
fn trim_blanks_strips_both_ends() {
    assert_eq!(trim_blanks(&bytes("  name.txt \t")), bytes("name.txt"));
    assert_eq!(trim_blanks(&bytes("   ")), bytes(""));
    assert_eq!(trim_blanks(&bytes("plain")), bytes("plain"));
}

#[test]
fn copy_range_and_bytes_eq_behave() {
    let v = bytes("abcdef");
    assert_eq!(copy_range(&v, 2, 5), bytes("cde"));
    assert!(bytes_eq(&bytes("xy"), &bytes("xy")));
    assert!(!bytes_eq(&bytes("xy"), &bytes("xz")));
}
