use tuxpad::editor::{Editor, Mode, ReplacePhase, Status};
use tuxpad::input::{Effect, Key};

fn bytes(s: &str) -> Vec<u8> {
    s.as_bytes().to_vec()
}

fn editor_with(content: &str) -> Editor {
    let mut ed = Editor::new();
    let data = bytes(content);
    ed.load_file(bytes("doc.txt"), Some(&data));
    ed
}

struct Driver {
    ed: Editor,
    clock: u64,
}

impl Driver {
    fn new(content: &str) -> Driver {
        Driver { ed: editor_with(content), clock: 100 }
    }

    fn press(&mut self, key: Key) -> Effect {
        self.clock += 100;
        self.ed.handle_key(key, self.clock)
    }

    fn type_chars(&mut self, text: &str) {
        for b in text.bytes() {
            self.press(Key::Char(b));
        }
    }
}

#[test]
fn throttled_events_are_dropped() {
    let mut ed = editor_with("abc");
    let eff = ed.handle_key(Key::Char(b'i'), 100);
    assert_eq!(eff, Effect::Continue);
    assert_eq!(ed.mode, Mode::Insert);
    let eff = ed.handle_key(Key::Esc, 105);
    assert_eq!(eff, Effect::Continue);
    assert_eq!(ed.mode, Mode::Insert);
    ed.handle_key(Key::Esc, 120);
    assert_eq!(ed.mode, Mode::Normal);
}

#[test]
fn normal_mode_transitions_per_table() {
    let mut d = Driver::new("abc");
    assert_eq!(d.press(Key::Char(b'i')), Effect::Continue);
    assert_eq!(d.ed.mode, Mode::Insert);
    d.press(Key::Esc);
    assert_eq!(d.ed.mode, Mode::Normal);
    d.press(Key::Char(b':'));
    assert_eq!(d.ed.mode, Mode::Command);
    d.press(Key::Esc);
    d.press(Key::Char(b'/'));
    assert_eq!(d.ed.mode, Mode::Search);
    d.press(Key::Esc);
    d.press(Key::Ctrl(b'r'));
    assert_eq!(d.ed.mode, Mode::Replace);
    assert_eq!(d.ed.replace_phase, ReplacePhase::AwaitingQuery);
    d.press(Key::Esc);
    assert_eq!(d.ed.mode, Mode::Normal);
}

#[test]
fn append_key_advances_column_before_insert() {
    let mut d = Driver::new("abc");
    d.press(Key::Char(b'a'));
    assert_eq!(d.ed.mode, Mode::Insert);
    assert_eq!(d.ed.cursor.x, 1);
}

#[test]
fn open_line_key_starts_a_new_line_below() {
    let mut d = Driver::new("abc\ndef");
    d.press(Key::Char(b'o'));
    assert_eq!(d.ed.mode, Mode::Insert);
    assert_eq!(d.ed.cursor.y, 1);
    assert_eq!(d.ed.cursor.x, 0);
    assert_eq!(d.ed.buffer.total_lines, 3);
    assert_eq!(d.ed.buffer.get_line(0), Some(&bytes("abc")));
    assert_eq!(d.ed.buffer.get_line(1), Some(&bytes("")));
    assert_eq!(d.ed.buffer.get_line(2), Some(&bytes("def")));
}

#[test]
fn typing_in_insert_mode_edits_the_line() {
    let mut d = Driver::new("");
    d.press(Key::Char(b'i'));
    d.type_chars("hi");
    assert_eq!(d.ed.buffer.get_line(0), Some(&bytes("hi")));
    d.press(Key::Enter);
    d.type_chars("there");
    assert_eq!(d.ed.buffer.get_line(0), Some(&bytes("hi")));
    assert_eq!(d.ed.buffer.get_line(1), Some(&bytes("there")));
    d.press(Key::Backspace);
    assert_eq!(d.ed.buffer.get_line(1), Some(&bytes("ther")));
}

#[test]
fn tab_inserts_four_spaces() {
    let mut d = Driver::new("");
    d.press(Key::Char(b'i'));
    d.press(Key::Tab);
    assert_eq!(d.ed.buffer.get_line(0), Some(&bytes("    ")));
    assert_eq!(d.ed.cursor.x, 4);
}

#[test]
fn quit_on_modified_session_warns_first() {
    let mut d = Driver::new("abc");
    d.press(Key::Char(b'i'));
    d.type_chars("x");
    d.press(Key::Esc);
    assert!(d.ed.modified);
    assert_eq!(d.press(Key::Ctrl(b'q')), Effect::Continue);
    assert_eq!(d.ed.status, Status::ModifiedWarning);
    assert!(d.ed.quit_requested);
    assert_eq!(d.press(Key::Ctrl(b'q')), Effect::Quit);
}

#[test]
fn quit_on_clean_session_is_immediate() {
    let mut d = Driver::new("abc");
    assert_eq!(d.press(Key::Ctrl(b'q')), Effect::Quit);
}

#[test]
fn command_quit_respects_modified_flag() {
    let mut d = Driver::new("abc");
    d.press(Key::Char(b':'));
    d.type_chars("q");
    assert_eq!(d.press(Key::Enter), Effect::Quit);

    let mut d = Driver::new("abc");
    d.press(Key::Char(b'i'));
    d.type_chars("y");
    d.press(Key::Esc);
    d.press(Key::Char(b':'));
    d.type_chars("q");
    assert_eq!(d.press(Key::Enter), Effect::Continue);
    assert_eq!(d.ed.status, Status::ModifiedUseBang);
    d.press(Key::Char(b':'));
    d.type_chars("q!");
    assert_eq!(d.press(Key::Enter), Effect::Quit);
}

#[test]
fn command_write_saves_and_write_quit_chains() {
    let mut d = Driver::new("abc");
    d.press(Key::Char(b':'));
    d.type_chars("w");
    assert_eq!(d.press(Key::Enter), Effect::Save(false));
    d.press(Key::Char(b':'));
    d.type_chars("wq");
    assert_eq!(d.press(Key::Enter), Effect::Save(true));
}

#[test]
fn command_write_with_name_sets_filename() {
    let mut d = Driver::new("abc");
    d.press(Key::Char(b':'));
    d.type_chars("w  notes.txt ");
    assert_eq!(d.press(Key::Enter), Effect::Save(false));
    assert_eq!(d.ed.filename, Some(bytes("notes.txt")));
}

#[test]
fn save_without_filename_reports() {
    let mut ed = Editor::new();
    let eff = ed.handle_key(Key::Ctrl(b's'), 100);
    assert_eq!(eff, Effect::Continue);
    assert_eq!(ed.status, Status::NoFilename);
}

#[test]
fn unknown_command_reports() {
    let mut d = Driver::new("abc");
    d.press(Key::Char(b':'));
    d.type_chars("frobnicate");
    assert_eq!(d.press(Key::Enter), Effect::Continue);
    assert_eq!(d.ed.status, Status::UnknownCommand);
    assert_eq!(d.ed.mode, Mode::Normal);
}

#[test]
fn search_enter_jumps_to_first_match() {
    let mut d = Driver::new("a foo\nb foo");
    d.press(Key::Char(b'/'));
    d.type_chars("foo");
    d.press(Key::Enter);
    assert_eq!(d.ed.mode, Mode::Normal);
    assert_eq!(d.ed.cursor.y, 0);
    assert_eq!(d.ed.cursor.x, 2);
    assert_eq!(d.ed.status, Status::FoundMatches(2));
    assert!(d.ed.needs_reload);
}

#[test]
fn search_without_match_reports() {
    let mut d = Driver::new("abc");
    d.press(Key::Char(b'/'));
    d.type_chars("zzz");
    d.press(Key::Enter);
    assert_eq!(d.ed.status, Status::NoMatches);
    assert_eq!(d.ed.cursor.y, 0);
    assert_eq!(d.ed.cursor.x, 0);
}

#[test]
fn replace_mode_collects_query_then_replacement() {
    let mut d = Driver::new("cat cat");
    d.press(Key::Ctrl(b'r'));
    d.type_chars("cat");
    d.press(Key::Enter);
    assert_eq!(d.ed.replace_phase, ReplacePhase::AwaitingReplacement);
    assert_eq!(d.ed.status, Status::EnterReplacement);
    d.type_chars("dog");
    d.press(Key::Enter);
    assert_eq!(d.ed.mode, Mode::Normal);
    assert_eq!(d.ed.status, Status::Replaced(2));
    assert_eq!(d.ed.buffer.get_line(0), Some(&bytes("dog dog")));
}

#[test]
fn replace_mode_empty_query_runs_nothing() {
    let mut d = Driver::new("cat");
    d.press(Key::Ctrl(b'r'));
    d.press(Key::Enter);
    assert_eq!(d.ed.mode, Mode::Normal);
    assert_eq!(d.ed.buffer.get_line(0), Some(&bytes("cat")));
}

#[test]
fn page_keys_request_reload() {
    let mut d = Driver::new("a\nb\nc");
    d.press(Key::PageDown);
    assert_eq!(d.ed.cursor.y, 2);
    assert!(d.ed.needs_reload);
    d.ed.skip_reload();
    assert!(!d.ed.needs_reload);
    d.press(Key::PageUp);
    assert_eq!(d.ed.cursor.y, 0);
}

#[test]
fn home_and_end_move_within_line() {
    let mut d = Driver::new("abcdef");
    d.press(Key::End);
    assert_eq!(d.ed.cursor.x, 6);
    d.press(Key::Home);
    assert_eq!(d.ed.cursor.x, 0);
}

#[test]
fn help_and_line_numbers_toggle() {
    let mut d = Driver::new("abc");
    assert!(!d.ed.show_help);
    d.press(Key::F(1));
    assert!(d.ed.show_help);
    assert!(d.ed.show_line_numbers);
    d.press(Key::F(2));
    assert!(!d.ed.show_line_numbers);
}
