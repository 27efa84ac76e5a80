//! The editor session: one windowed line buffer together with the cursor,
//! viewport offset, active mode, transient prompts, clipboard and undo log,
//! and the edit operations that act on them.

use vstd::prelude::*;

use crate::buffer::LineBuffer;
use crate::text::{clip_line, join_lines, views};
use crate::{MAX_LINE_LENGTH, WINDOW_CAPACITY};

verus! {

/// How many single-line snapshots the undo log keeps before the oldest is
/// evicted.
pub const UNDO_CAPACITY: usize = 50;

/// The active member of the modal input state machine.
#[derive(Clone, Copy, PartialEq, Eq, Structural, Debug)]
pub enum Mode {
    Normal,
    Insert,
    Command,
    Search,
    Replace,
}

/// Which of its two inputs Replace mode is currently collecting.
#[derive(Clone, Copy, PartialEq, Eq, Structural, Debug)]
pub enum ReplacePhase {
    AwaitingQuery,
    AwaitingReplacement,
}

/// The transient status line, as a closed set of reports.
#[derive(Clone, Copy, PartialEq, Eq, Structural, Debug)]
pub enum Status {
    Welcome,
    NormalMode,
    InsertMode,
    CommandMode,
    SearchMode,
    ReplaceMode,
    Loaded,
    LoadFailed,
    Saved,
    SaveFailed,
    NoFilename,
    LineTooLong,
    CannotJoin,
    LineCopied,
    LineCut,
    LinePasted,
    FoundMatches(usize),
    NoMatches,
    Replaced(usize),
    ModifiedWarning,
    ModifiedUseBang,
    UnknownCommand,
    HelpShown,
    HelpHidden,
    LineNumbersShown,
    LineNumbersHidden,
    EnterReplacement,
}

/// Logical cursor position: `y` is a document line index, `x` a byte offset
/// into that line.
#[derive(Clone, Copy, PartialEq, Eq, Structural, Debug)]
pub struct Cursor {
    pub x: usize,
    pub y: usize,
}

pub struct Editor {
    pub buffer: LineBuffer,
    pub cursor: Cursor,
    /// First visible document line of the viewport.
    pub offset_y: usize,
    pub mode: Mode,
    pub replace_phase: ReplacePhase,
    /// Name of the backing store, if any.
    pub filename: Option<Vec<u8>>,
    pub modified: bool,
    pub status: Status,
    pub command_buffer: Vec<u8>,
    pub search_query: Vec<u8>,
    pub replace_query: Vec<u8>,
    pub replace_with: Vec<u8>,
    pub show_line_numbers: bool,
    pub show_help: bool,
    /// Register holding the most recently copied or cut line.
    pub clipboard: Vec<u8>,
    /// Bounded log of single-line snapshots, captured before mutation.
    /// Nothing replays it: undo is not offered.
    pub undo_buffer: Vec<Vec<u8>>,
    pub quit_requested: bool,
    /// When the last processed event arrived, in milliseconds.
    pub last_operation_ms: u64,
    /// The driver must reload the window around the cursor before rendering.
    pub needs_reload: bool,
    /// A character insertion waiting for that reload, retried once after it.
    pub pending_insert: Option<u8>,
}

/// The undo log after a snapshot is pushed: the oldest entry leaves when the
/// log outgrows its capacity.
pub open spec fn undo_push(log: Seq<Seq<u8>>, line: Seq<u8>) -> Seq<Seq<u8>> {
    let grown = log.push(line);
    if grown.len() > UNDO_CAPACITY {
        grown.drop_first()
    } else {
        grown
    }
}

/// A line with `c` inserted at column `x`, clamped to the line's end.
pub open spec fn line_with_insert(line: Seq<u8>, x: int, c: u8) -> Seq<u8> {
    line.insert(if x <= line.len() { x } else { line.len() as int }, c)
}

/// The column a cursor may reach on a line of length `len`: past the last
/// byte only in insert mode.
pub open spec fn column_bound(mode: Mode, len: int) -> int {
    if mode == Mode::Insert {
        len
    } else if len >= 1 {
        len - 1
    } else {
        0
    }
}

/// Line reached from `y` by `dy`, clamped into `[0, total - 1]`.
pub open spec fn clamp_line_target(y: int, dy: int, total: int) -> int {
    let raw = y + dy;
    if raw < 0 {
        0
    } else if raw >= total {
        total - 1
    } else {
        raw
    }
}

/// Column reached from `x` by `dx`, clamped into `[0, bound]`.
pub open spec fn clamp_column_target(x: int, dx: int, bound: int) -> int {
    let raw = x + dx;
    if raw < 0 {
        0
    } else if raw > bound {
        bound
    } else {
        raw
    }
}

/// The document lines a store's content yields: an empty store still has one
/// empty line.
pub open spec fn nonempty_lines(s: Seq<u8>) -> Seq<Seq<u8>> {
    if crate::text::split_lines(s).len() == 0 {
        seq![Seq::<u8>::empty()]
    } else {
        crate::text::split_lines(s)
    }
}

/// How many matches a window-local search reports at most.
pub const MAX_MATCHES: usize = 100;

/// Strict ascending order on `(line, column)` pairs.
pub open spec fn pair_lt(a: (usize, usize), b: (usize, usize)) -> bool {
    a.0 < b.0 || (a.0 == b.0 && a.1 < b.1)
}

/// `a` stands before the scan point `(li, p)`.
pub open spec fn before_point(a: (usize, usize), li: int, p: int) -> bool {
    (a.0 as int) < li || (a.0 as int == li && (a.1 as int) < p)
}

/// A line as bulk replacement rewrites it: every occurrence of `pat` becomes
/// `rep`; a result over the maximum length is clipped to it.
pub open spec fn replaced_line(l: Seq<u8>, pat: Seq<u8>, rep: Seq<u8>) -> Seq<u8> {
    let n = crate::text::replace_all(l, pat, rep);
    if n == l {
        l
    } else if n.len() <= MAX_LINE_LENGTH {
        n
    } else {
        n.take(MAX_LINE_LENGTH as int)
    }
}

/// What bulk replacement counts for one line: the pre-substitution occurrence
/// count, or exactly one where the rewritten line had to be clipped.
pub open spec fn line_replace_count(l: Seq<u8>, pat: Seq<u8>, rep: Seq<u8>) -> int {
    let n = crate::text::replace_all(l, pat, rep);
    if n == l {
        0
    } else if n.len() <= MAX_LINE_LENGTH {
        crate::text::count_matches(l, pat)
    } else {
        1
    }
}

/// Sum of the per-line replacement counts over a window.
pub open spec fn window_replace_count(w: Seq<Seq<u8>>, pat: Seq<u8>, rep: Seq<u8>) -> int
    decreases w.len(),
{
    if w.len() == 0 {
        0
    } else {
        window_replace_count(w.drop_last(), pat, rep) + line_replace_count(w.last(), pat, rep)
    }
}

/// The scroll offset after adjusting for a cursor at line `y` with
/// `h` visible lines.
pub open spec fn scroll_target(y: int, offset: int, h: int) -> int {
    if y < offset {
        y
    } else if y >= offset + h {
        y - h + 1
    } else {
        offset
    }
}

/// Law: loading a store that fits the window — no more lines than the
/// capacity, none longer than the maximum — and saving with no edits writes
/// back exactly the original bytes, provided no separator ends the content
/// and no carriage return stands before a separator. The window named here is
/// what `load_window` ensures for a load from the start; what it joins to is
/// what `save_content` ensures it writes.
pub proof fn lemma_save_after_load_round_trip(content: Seq<u8>)
    requires
        content.len() == 0 || content[content.len() - 1] != crate::text::NL,
        crate::text::no_cr_before_nl(content),
        crate::text::split_lines(content).len() <= WINDOW_CAPACITY,
        forall|i: int|
            0 <= i < crate::text::split_lines(content).len() ==> (
            #[trigger] crate::text::split_lines(content)[i]).len() <= MAX_LINE_LENGTH,
    ensures
        ({
            let all = crate::text::split_lines(content);
            let w = if all.len() == 0 {
                seq![Seq::<u8>::empty()]
            } else {
                crate::buffer::window_slice(all, 0, WINDOW_CAPACITY as int)
            };
            join_lines(w) == content
        }),
{
    let all = crate::text::split_lines(content);
    crate::text::lemma_lines_round_trip(content);
    if all.len() == 0 {
        assert(content.len() == 0);
        assert(join_lines(seq![Seq::<u8>::empty()]) == Seq::<u8>::empty());
        assert(join_lines(seq![Seq::<u8>::empty()]) =~= content);
    } else {
        let w = crate::buffer::window_slice(all, 0, WINDOW_CAPACITY as int);
        assert(w =~= all) by {
            assert(forall|i: int|
                0 <= i < all.len() ==> crate::text::clipped(all)[i] == crate::text::clip_line(
                    #[trigger] all[i],
                ));
        }
    }
}

/// Law: inserting a byte at any column within a line and then deleting the
/// byte before the advanced cursor restores the line, and the advanced column
/// steps back to where it was. `line_with_insert` is what `insert_char`
/// writes at the clamped column; removal at the column before the advanced
/// cursor is what `delete_char` performs.
pub proof fn lemma_insert_then_delete(line: Seq<u8>, x: int, c: u8)
    requires
        0 <= x <= line.len(),
    ensures
        line_with_insert(line, x, c).len() == line.len() + 1,
        line_with_insert(line, x, c).remove((x + 1) - 1) == line,
{
    assert(line_with_insert(line, x, c).remove(x) =~= line);
}

/// Law: however far the cursor moves, the line it lands on stays inside the
/// document. `clamp_line_target` is where `move_cursor` puts the cursor's
/// line; residency after the following reload is what `apply_reload` ensures.
pub proof fn lemma_moved_cursor_in_document(y: int, dy: int, total: int)
    requires
        total >= 1,
        0 <= y < total,
    ensures
        0 <= clamp_line_target(y, dy, total) < total,
{
}

impl Editor {
    /// Session invariant: the window is well formed at its fixed capacity,
    /// the document never has fewer than one line, and the cursor stands on
    /// a document line.
    pub open spec fn wf(self) -> bool {
        &&& self.buffer.wf()
        &&& self.buffer.max_lines == WINDOW_CAPACITY
        &&& self.buffer.total_lines >= 1
        &&& (self.cursor.y as int) < self.buffer.total_lines
        &&& self.undo_log().len() <= UNDO_CAPACITY
    }

    /// Content of the cursor's line, when resident.
    pub open spec fn cursor_line(self) -> Seq<u8> {
        self.buffer.line_at(self.cursor.y as int)
    }

    /// The undo log as mathematical sequences.
    pub open spec fn undo_log(self) -> Seq<Seq<u8>> {
        views(self.undo_buffer@)
    }

    /// A fresh session: one empty, unmodified, unnamed line in normal mode.
    pub fn new() -> (ed: Editor)
        ensures
            ed.wf(),
            ed.mode == Mode::Normal,
            ed.buffer.total_lines == 1,
            ed.buffer.window() == seq![Seq::<u8>::empty()],
            ed.buffer.start_line_number == 0,
            ed.cursor.x == 0 && ed.cursor.y == 0,
            ed.offset_y == 0,
            ed.filename is None,
            !ed.modified,
            ed.clipboard@.len() == 0,
            ed.undo_log().len() == 0,
            ed.command_buffer@.len() == 0,
            ed.search_query@.len() == 0,
            ed.replace_query@.len() == 0,
            ed.replace_with@.len() == 0,
            ed.replace_phase == ReplacePhase::AwaitingQuery,
            !ed.needs_reload,
            ed.pending_insert is None,
            !ed.quit_requested,
            !ed.show_help,
            ed.show_line_numbers,
            ed.status == Status::Welcome,
    {
        let mut buffer = LineBuffer::new(WINDOW_CAPACITY);
        buffer.load_window(None, 0);
        Editor {
            buffer,
            cursor: Cursor { x: 0, y: 0 },
            offset_y: 0,
            mode: Mode::Normal,
            replace_phase: ReplacePhase::AwaitingQuery,
            filename: None,
            modified: false,
            status: Status::Welcome,
            command_buffer: Vec::new(),
            search_query: Vec::new(),
            replace_query: Vec::new(),
            replace_with: Vec::new(),
            show_line_numbers: true,
            show_help: false,
            clipboard: Vec::new(),
            undo_buffer: Vec::new(),
            quit_requested: false,
            last_operation_ms: 0,
            needs_reload: false,
            pending_insert: None,
        }
    }

    /// Open a store: the driver hands over the store's name and its full
    /// content, or `None` for an absent store.
    pub fn load_file(&mut self, name: Vec<u8>, content: Option<&Vec<u8>>)
        requires
            old(self).wf(),
        ensures
            final(self).wf(),
            final(self).filename matches Some(n) && n@ == name@,
            final(self).cursor.x == 0 && final(self).cursor.y == 0,
            final(self).offset_y == 0,
            !final(self).modified,
            final(self).status == Status::Loaded,
            final(self).buffer.max_lines == old(self).buffer.max_lines,
            match content {
                None => {
                    &&& final(self).buffer.total_lines == 1
                    &&& final(self).buffer.start_line_number == 0
                    &&& final(self).buffer.window() == seq![Seq::<u8>::empty()]
                },
                Some(c) => {
                    let all = crate::text::split_lines(c@);
                    if all.len() == 0 {
                        &&& final(self).buffer.total_lines == 1
                        &&& final(self).buffer.start_line_number == 0
                        &&& final(self).buffer.window() == seq![Seq::<u8>::empty()]
                    } else {
                        &&& final(self).buffer.total_lines == all.len()
                        &&& final(self).buffer.start_line_number == 0
                        &&& final(self).buffer.window() == crate::buffer::window_slice(
                            all,
                            0,
                            old(self).buffer.max_lines as int,
                        )
                    }
                },
            },
    {
        self.buffer.load_window(content, 0);
        self.filename = Some(name);
        self.cursor = Cursor { x: 0, y: 0 };
        self.offset_y = 0;
        self.modified = false;
        self.status = Status::Loaded;
    }

    /// Note that reading the store failed; the session stays usable.
    pub fn load_failed(&mut self)
        requires
            old(self).wf(),
        ensures
            final(self).wf(),
            *final(self) == (Editor { status: Status::LoadFailed, ..*old(self) }),
    {
        self.status = Status::LoadFailed;
    }

    /// The bytes that saving writes: every resident line, separated by the
    /// line terminator, with none after the final line.
    pub fn save_content(&self) -> (out: Vec<u8>)
        ensures
            out@ == join_lines(self.buffer.window()),
    {
        crate::text::join_window(&self.buffer.lines)
    }

    /// Note the outcome of a save the driver performed.
    pub fn finish_save(&mut self, ok: bool)
        requires
            old(self).wf(),
        ensures
            final(self).wf(),
            ok ==> *final(self) == (Editor {
                modified: false,
                status: Status::Saved,
                ..*old(self)
            }),
            !ok ==> *final(self) == (Editor { status: Status::SaveFailed, ..*old(self) }),
    {
        if ok {
            self.modified = false;
            self.status = Status::Saved;
        } else {
            self.status = Status::SaveFailed;
        }
    }

    /// Snapshot the cursor's line into the undo log, if resident.
    fn save_undo_state(&mut self)
        requires
            old(self).wf(),
        ensures
            final(self).wf(),
            *final(self) == (Editor { undo_buffer: final(self).undo_buffer, ..*old(self) }),
            final(self).undo_log() == if old(self).buffer.resident(old(self).cursor.y as int) {
                undo_push(old(self).undo_log(), old(self).cursor_line())
            } else {
                old(self).undo_log()
            },
    {
        let ghost prev = self.undo_buffer@;
        match self.buffer.get_line(self.cursor.y) {
            Some(line) => {
                let snapshot = crate::text::copy_range(line, 0, line.len());
                proof {
                    assert(snapshot@ =~= old(self).cursor_line());
                }
                self.undo_buffer.push(snapshot);
                proof {
                    crate::text::lemma_views_push(prev, self.undo_buffer@[prev.len() as int]);
                }
                if self.undo_buffer.len() > UNDO_CAPACITY {
                    let ghost grown = self.undo_buffer@;
                    let _ = self.undo_buffer.remove(0);
                    proof {
                        crate::text::lemma_views_remove(grown, 0);
                        assert(views(grown).remove(0) =~= views(grown).drop_first());
                    }
                }
            },
            None => {},
        }
    }

    /// Store the cursor's resident line in the clipboard register.
    pub fn copy_line(&mut self)
        requires
            old(self).wf(),
        ensures
            final(self).wf(),
            if old(self).buffer.resident(old(self).cursor.y as int) {
                &&& *final(self) == (Editor {
                    clipboard: final(self).clipboard,
                    status: Status::LineCopied,
                    ..*old(self)
                })
                &&& final(self).clipboard@ == old(self).cursor_line()
            } else {
                *final(self) == *old(self)
            },
    {
        match self.buffer.get_line(self.cursor.y) {
            Some(line) => {
                let copied = crate::text::copy_range(line, 0, line.len());
                proof {
                    assert(copied@ =~= old(self).cursor_line());
                }
                self.clipboard = copied;
                self.status = Status::LineCopied;
            },
            None => {},
        }
    }

    /// Insert a byte at the cursor. On a resident line the byte lands at the
    /// column, clamped to the line's end, and the cursor advances; a full
    /// line refuses with a report. On a miss the insertion is parked and a
    /// reload requested.
    pub fn insert_char(&mut self, c: u8)
        requires
            old(self).wf(),
        ensures
            final(self).wf(),
            *final(self) == (Editor {
                buffer: final(self).buffer,
                cursor: final(self).cursor,
                modified: final(self).modified,
                status: final(self).status,
                undo_buffer: final(self).undo_buffer,
                needs_reload: final(self).needs_reload,
                pending_insert: final(self).pending_insert,
                ..*old(self)
            }),
            final(self).buffer.total_lines == old(self).buffer.total_lines,
            final(self).buffer.start_line_number == old(self).buffer.start_line_number,
            final(self).buffer.max_lines == old(self).buffer.max_lines,
            ({
                let y = old(self).cursor.y as int;
                let x = old(self).cursor.x as int;
                let begin = old(self).buffer.start_line_number as int;
                if old(self).buffer.resident(y) {
                    let line = old(self).cursor_line();
                    &&& final(self).undo_log() == undo_push(old(self).undo_log(), line)
                    &&& final(self).needs_reload == old(self).needs_reload
                    &&& final(self).pending_insert == old(self).pending_insert
                    &&& if line.len() < MAX_LINE_LENGTH {
                        let pos = if x <= line.len() {
                            x
                        } else {
                            line.len() as int
                        };
                        &&& final(self).buffer.window() == old(self).buffer.window().update(
                            y - begin,
                            line_with_insert(line, x, c),
                        )
                        &&& final(self).cursor.x == pos + 1
                        &&& final(self).cursor.y == old(self).cursor.y
                        &&& final(self).modified
                        &&& final(self).status == old(self).status
                    } else {
                        &&& final(self).buffer.window() == old(self).buffer.window()
                        &&& final(self).cursor == old(self).cursor
                        &&& final(self).modified == old(self).modified
                        &&& final(self).status == Status::LineTooLong
                    }
                } else {
                    &&& final(self).buffer.window() == old(self).buffer.window()
                    &&& final(self).cursor == old(self).cursor
                    &&& final(self).modified == old(self).modified
                    &&& final(self).status == old(self).status
                    &&& final(self).undo_log() == old(self).undo_log()
                    &&& final(self).needs_reload
                    &&& final(self).pending_insert == Some(c)
                }
            }),
    {
        self.save_undo_state();
        let ghost lines_before = self.buffer.lines@;
        let ghost k = old(self).cursor.y - old(self).buffer.start_line_number;
        match self.buffer.get_line_mut(self.cursor.y) {
            Some(line) => {
                let len = line.len();
                if len < MAX_LINE_LENGTH {
                    let pos: usize = if self.cursor.x <= len {
                        self.cursor.x
                    } else {
                        len
                    };
                    line.insert(pos, c);
                    self.cursor.x = pos + 1;
                    self.modified = true;
                    proof {
                        crate::text::lemma_views_update(lines_before, k, self.buffer.lines@[k]);
                        assert(self.buffer.window() =~= old(self).buffer.window().update(
                            k,
                            line_with_insert(
                                old(self).cursor_line(),
                                old(self).cursor.x as int,
                                c,
                            ),
                        ));
                    }
                } else {
                    self.status = Status::LineTooLong;
                    proof {
                        assert(self.buffer.lines@ =~= lines_before.update(k, lines_before[k]));
                        assert(self.buffer.lines@ =~= lines_before);
                    }
                }
            },
            None => {
                self.needs_reload = true;
                self.pending_insert = Some(c);
            },
        }
    }

    /// Backspace. With the cursor inside a line, the byte before it leaves
    /// and the cursor steps back. At column zero the line is joined onto the
    /// previous line when both are resident and the result stays under the
    /// maximum length; otherwise the join is refused with a report.
    pub fn delete_char(&mut self)
        requires
            old(self).wf(),
        ensures
            final(self).wf(),
            *final(self) == (Editor {
                buffer: final(self).buffer,
                cursor: final(self).cursor,
                modified: final(self).modified,
                status: final(self).status,
                undo_buffer: final(self).undo_buffer,
                ..*old(self)
            }),
            final(self).buffer.start_line_number == old(self).buffer.start_line_number,
            final(self).buffer.max_lines == old(self).buffer.max_lines,
            ({
                let y = old(self).cursor.y as int;
                let x = old(self).cursor.x as int;
                let begin = old(self).buffer.start_line_number as int;
                if x > 0 {
                    let line = old(self).cursor_line();
                    &&& final(self).buffer.total_lines == old(self).buffer.total_lines
                    &&& final(self).undo_log() == if old(self).buffer.resident(y) {
                        undo_push(old(self).undo_log(), line)
                    } else {
                        old(self).undo_log()
                    }
                    &&& final(self).status == old(self).status
                    &&& if old(self).buffer.resident(y) && x <= line.len() && line.len() > 0 {
                        &&& final(self).buffer.window() == old(self).buffer.window().update(
                            y - begin,
                            line.remove(x - 1),
                        )
                        &&& final(self).cursor.x == x - 1
                        &&& final(self).cursor.y == old(self).cursor.y
                        &&& final(self).modified
                    } else {
                        &&& final(self).buffer.window() == old(self).buffer.window()
                        &&& final(self).cursor == old(self).cursor
                        &&& final(self).modified == old(self).modified
                    }
                } else if y > 0 {
                    &&& final(self).undo_log() == if old(self).buffer.resident(y) {
                        undo_push(old(self).undo_log(), old(self).cursor_line())
                    } else {
                        old(self).undo_log()
                    }
                    &&& if old(self).buffer.resident(y) && old(self).buffer.resident(y - 1) {
                        let prev = old(self).buffer.line_at(y - 1);
                        let cur = old(self).buffer.line_at(y);
                        if prev.len() + cur.len() < MAX_LINE_LENGTH {
                            &&& final(self).buffer.window() == old(self).buffer.window().update(
                                y - 1 - begin,
                                prev + cur,
                            ).remove(y - begin)
                            &&& final(self).buffer.total_lines == old(self).buffer.total_lines - 1
                            &&& final(self).cursor.y == y - 1
                            &&& final(self).cursor.x == prev.len()
                            &&& final(self).modified
                            &&& final(self).status == old(self).status
                        } else {
                            &&& final(self).buffer.window() == old(self).buffer.window()
                            &&& final(self).buffer.total_lines == old(self).buffer.total_lines
                            &&& final(self).cursor == old(self).cursor
                            &&& final(self).modified == old(self).modified
                            &&& final(self).status == Status::CannotJoin
                        }
                    } else {
                        &&& final(self).buffer.window() == old(self).buffer.window()
                        &&& final(self).buffer.total_lines == old(self).buffer.total_lines
                        &&& final(self).cursor == old(self).cursor
                        &&& final(self).modified == old(self).modified
                        &&& final(self).status == old(self).status
                    }
                } else {
                    *final(self) == *old(self)
                }
            }),
    {
        if self.cursor.x > 0 {
            self.save_undo_state();
            let ghost lines_before = self.buffer.lines@;
            let ghost k = old(self).cursor.y - old(self).buffer.start_line_number;
            match self.buffer.get_line_mut(self.cursor.y) {
                Some(line) => {
                    if self.cursor.x <= line.len() && line.len() > 0 {
                        let _ = line.remove(self.cursor.x - 1);
                        self.cursor.x = self.cursor.x - 1;
                        self.modified = true;
                        proof {
                            crate::text::lemma_views_update(
                                lines_before,
                                k,
                                self.buffer.lines@[k],
                            );
                            assert(self.buffer.window() =~= old(self).buffer.window().update(
                                k,
                                old(self).cursor_line().remove(old(self).cursor.x - 1),
                            ));
                        }
                    } else {
                        proof {
                            assert(self.buffer.lines@ =~= lines_before.update(
                                k,
                                lines_before[k],
                            ));
                            assert(self.buffer.lines@ =~= lines_before);
                        }
                    }
                },
                None => {},
            }
        } else if self.cursor.y > 0 {
            self.save_undo_state();
            if self.buffer.is_resident(self.cursor.y) && self.buffer.is_resident(
                self.cursor.y - 1,
            ) {
                let y = self.cursor.y;
                let mut cur: Vec<u8> = match self.buffer.get_line(y) {
                    Some(l) => crate::text::copy_range(l, 0, l.len()),
                    None => {
                        proof {
                            assert(false);
                        }
                        Vec::new()
                    },
                };
                proof {
                    assert(cur@ =~= old(self).buffer.line_at(y as int));
                }
                let ghost lines_before = self.buffer.lines@;
                let ghost kp = y - 1 - old(self).buffer.start_line_number;
                match self.buffer.get_line_mut(y - 1) {
                    Some(prev) => {
                        if prev.len() + cur.len() < MAX_LINE_LENGTH {
                            let new_x = prev.len();
                            prev.append(&mut cur);
                            proof {
                                crate::text::lemma_views_update(
                                    lines_before,
                                    kp,
                                    self.buffer.lines@[kp],
                                );
                                assert(views(self.buffer.lines@) =~= old(
                                    self,
                                ).buffer.window().update(
                                    kp,
                                    old(self).buffer.line_at(y - 1 as int) + old(
                                        self,
                                    ).buffer.line_at(y as int),
                                ));
                            }
                            let ghost joined = self.buffer;
                            let _ = self.buffer.remove_line(y);
                            self.cursor.y = y - 1;
                            self.cursor.x = new_x;
                            self.modified = true;
                            proof {
                                assert(joined.resident(y as int));
                                assert(self.buffer.window() == joined.window().remove(
                                    y - old(self).buffer.start_line_number,
                                ));
                            }
                        } else {
                            self.status = Status::CannotJoin;
                            proof {
                                assert(self.buffer.lines@ =~= lines_before.update(
                                    kp,
                                    lines_before[kp],
                                ));
                                assert(self.buffer.lines@ =~= lines_before);
                            }
                        }
                    },
                    None => {
                        proof {
                            assert(false);
                        }
                    },
                }
            }
        }
    }

    /// Split the cursor's resident line at the column: the prefix stays, the
    /// suffix becomes the next line, and the cursor moves to its start.
    pub fn insert_newline(&mut self)
        requires
            old(self).wf(),
            old(self).buffer.total_lines < usize::MAX,
        ensures
            final(self).wf(),
            *final(self) == (Editor {
                buffer: final(self).buffer,
                cursor: final(self).cursor,
                modified: final(self).modified,
                undo_buffer: final(self).undo_buffer,
                ..*old(self)
            }),
            final(self).buffer.start_line_number == old(self).buffer.start_line_number,
            final(self).buffer.max_lines == old(self).buffer.max_lines,
            ({
                let y = old(self).cursor.y as int;
                let x = old(self).cursor.x as int;
                let begin = old(self).buffer.start_line_number as int;
                if old(self).buffer.resident(y) {
                    let line = old(self).cursor_line();
                    let pos = if x <= line.len() {
                        x
                    } else {
                        line.len() as int
                    };
                    let grown = old(self).buffer.window().update(y - begin, line.take(pos)).insert(
                        y + 1 - begin,
                        line.skip(pos),
                    );
                    &&& final(self).buffer.window() == if grown.len() > WINDOW_CAPACITY {
                        grown.drop_last()
                    } else {
                        grown
                    }
                    &&& final(self).buffer.total_lines == old(self).buffer.total_lines + 1
                    &&& final(self).cursor.y == y + 1
                    &&& final(self).cursor.x == 0
                    &&& final(self).modified
                    &&& final(self).undo_log() == undo_push(old(self).undo_log(), line)
                } else {
                    &&& *final(self) == (Editor { undo_buffer: final(self).undo_buffer, ..*old(
                        self,
                    ) })
                    &&& final(self).undo_log() == old(self).undo_log()
                }
            }),
    {
        self.save_undo_state();
        if self.buffer.is_resident(self.cursor.y) {
            let y = self.cursor.y;
            let ghost lines_before = self.buffer.lines@;
            let ghost k = y - old(self).buffer.start_line_number;
            let suffix: Vec<u8>;
            match self.buffer.get_line_mut(y) {
                Some(line) => {
                    let len = line.len();
                    let pos: usize = if self.cursor.x <= len {
                        self.cursor.x
                    } else {
                        len
                    };
                    suffix = crate::text::copy_range(line, pos, len);
                    line.truncate(pos);
                },
                None => {
                    proof {
                        assert(false);
                    }
                    suffix = Vec::new();
                },
            }
            proof {
                crate::text::lemma_views_update(lines_before, k, self.buffer.lines@[k]);
                let line = old(self).cursor_line();
                let pos = if old(self).cursor.x <= line.len() {
                    old(self).cursor.x as int
                } else {
                    line.len() as int
                };
                assert(self.buffer.lines@[k]@ =~= line.take(pos));
                assert(suffix@ =~= line.skip(pos));
                assert(self.buffer.window() =~= old(self).buffer.window().update(
                    k,
                    line.take(pos),
                ));
                assert(clip_line(suffix@) == suffix@);
            }
            self.buffer.insert_line(y + 1, suffix);
            self.cursor.y = y + 1;
            self.cursor.x = 0;
            self.modified = true;
        }
    }

    /// Move the cursor by `dy` lines and `dx` columns: the line clamps into
    /// the document, the column into the reached line's bound; leaving the
    /// window requests a reload.
    pub fn move_cursor(&mut self, dx: isize, dy: isize)
        requires
            old(self).wf(),
            dx != isize::MIN,
            dy != isize::MIN,
        ensures
            final(self).wf(),
            *final(self) == (Editor {
                cursor: final(self).cursor,
                needs_reload: final(self).needs_reload,
                ..*old(self)
            }),
            ({
                let y = old(self).cursor.y as int;
                let x = old(self).cursor.x as int;
                let total = old(self).buffer.total_lines as int;
                let ny = if dy != 0 {
                    clamp_line_target(y, dy as int, total)
                } else {
                    y
                };
                &&& final(self).cursor.y == ny
                &&& final(self).needs_reload == (old(self).needs_reload || (dy != 0 && !old(
                    self,
                ).buffer.resident(ny)))
                &&& if old(self).buffer.resident(ny) {
                    let len = old(self).buffer.line_at(ny).len() as int;
                    let bound = column_bound(old(self).mode, len);
                    final(self).cursor.x == if dx != 0 {
                        clamp_column_target(x, dx as int, bound)
                    } else if dy != 0 {
                        if x <= bound {
                            x
                        } else {
                            bound
                        }
                    } else {
                        x
                    }
                } else {
                    final(self).cursor.x == old(self).cursor.x
                }
            }),
    {
        if dy != 0 {
            let total = self.buffer.total_lines;
            let ny: usize;
            if dy < 0 {
                let d = (-dy) as usize;
                ny = if self.cursor.y >= d {
                    self.cursor.y - d
                } else {
                    0
                };
            } else {
                let d = dy as usize;
                ny = if self.cursor.y <= usize::MAX - d {
                    if self.cursor.y + d <= total - 1 {
                        self.cursor.y + d
                    } else {
                        total - 1
                    }
                } else {
                    total - 1
                };
            }
            self.cursor.y = ny;
            if !self.buffer.is_resident(ny) {
                self.needs_reload = true;
            }
        }
        let insert_mode = self.mode == Mode::Insert;
        match self.buffer.get_line(self.cursor.y) {
            Some(line) => {
                let len = line.len();
                let bound: usize = if insert_mode {
                    len
                } else if len >= 1 {
                    len - 1
                } else {
                    0
                };
                if dx != 0 {
                    let nx: usize;
                    if dx < 0 {
                        let d = (-dx) as usize;
                        nx = if self.cursor.x >= d {
                            self.cursor.x - d
                        } else {
                            0
                        };
                    } else {
                        let d = dx as usize;
                        nx = if self.cursor.x <= usize::MAX - d {
                            self.cursor.x + d
                        } else {
                            usize::MAX
                        };
                    }
                    self.cursor.x = if nx <= bound {
                        nx
                    } else {
                        bound
                    };
                } else if dy != 0 {
                    if self.cursor.x > bound {
                        self.cursor.x = bound;
                    }
                }
            },
            None => {},
        }
    }

    /// Cut the cursor's resident line into the clipboard: the line leaves the
    /// document, a document left empty is re-seeded with one empty line, and
    /// the cursor is clamped back into the document at column zero.
    pub fn cut_line(&mut self)
        requires
            old(self).wf(),
        ensures
            final(self).wf(),
            final(self).buffer.total_lines >= 1,
            *final(self) == (Editor {
                buffer: final(self).buffer,
                cursor: final(self).cursor,
                clipboard: final(self).clipboard,
                modified: final(self).modified,
                status: final(self).status,
                undo_buffer: final(self).undo_buffer,
                ..*old(self)
            }),
            final(self).buffer.start_line_number == old(self).buffer.start_line_number,
            final(self).buffer.max_lines == old(self).buffer.max_lines,
            ({
                let y = old(self).cursor.y as int;
                let begin = old(self).buffer.start_line_number as int;
                if old(self).buffer.resident(y) {
                    let line = old(self).cursor_line();
                    &&& final(self).clipboard@ == line
                    &&& final(self).undo_log() == undo_push(old(self).undo_log(), line)
                    &&& if old(self).buffer.total_lines == 1 {
                        &&& final(self).buffer.window() == seq![Seq::<u8>::empty()]
                        &&& final(self).buffer.total_lines == 1
                    } else {
                        &&& final(self).buffer.window() == old(self).buffer.window().remove(
                            y - begin,
                        )
                        &&& final(self).buffer.total_lines == old(self).buffer.total_lines - 1
                    }
                    &&& final(self).cursor.y == if y < final(self).buffer.total_lines {
                        y
                    } else {
                        final(self).buffer.total_lines - 1
                    }
                    &&& final(self).cursor.x == 0
                    &&& final(self).modified
                    &&& final(self).status == Status::LineCut
                } else {
                    *final(self) == *old(self)
                }
            }),
    {
        if self.buffer.is_resident(self.cursor.y) {
            let y = self.cursor.y;
            let line_copy: Vec<u8> = match self.buffer.get_line(y) {
                Some(l) => crate::text::copy_range(l, 0, l.len()),
                None => {
                    proof {
                        assert(false);
                    }
                    Vec::new()
                },
            };
            proof {
                assert(line_copy@ =~= old(self).cursor_line());
            }
            self.save_undo_state();
            self.clipboard = line_copy;
            let was_only = self.buffer.total_lines == 1;
            let _ = self.buffer.remove_line(y);
            if was_only {
                let ghost removed = self.buffer.lines@;
                self.buffer.lines.push(Vec::new());
                proof {
                    crate::text::lemma_views_push(removed, self.buffer.lines@[removed.len() as int]);
                    assert(self.buffer.window() =~= seq![Seq::<u8>::empty()]);
                }
            }
            if self.cursor.y >= self.buffer.total_lines {
                self.cursor.y = self.buffer.total_lines - 1;
            }
            self.cursor.x = 0;
            self.modified = true;
            self.status = Status::LineCut;
        }
    }

    /// Insert the clipboard's line right after the cursor's line, wherever
    /// that insertion point falls within or immediately past the window, and
    /// move the cursor onto it; an empty clipboard pastes nothing.
    pub fn paste_line(&mut self)
        requires
            old(self).wf(),
            old(self).buffer.total_lines < usize::MAX,
        ensures
            final(self).wf(),
            *final(self) == (Editor {
                buffer: final(self).buffer,
                cursor: final(self).cursor,
                modified: final(self).modified,
                status: final(self).status,
                undo_buffer: final(self).undo_buffer,
                ..*old(self)
            }),
            final(self).buffer.start_line_number == old(self).buffer.start_line_number,
            final(self).buffer.max_lines == old(self).buffer.max_lines,
            ({
                let y = old(self).cursor.y as int;
                let begin = old(self).buffer.start_line_number as int;
                if old(self).clipboard@.len() > 0 && old(self).buffer.insertable(y + 1) {
                    let grown = old(self).buffer.window().insert(
                        y + 1 - begin,
                        clip_line(old(self).clipboard@),
                    );
                    &&& final(self).buffer.window() == if grown.len() > WINDOW_CAPACITY {
                        grown.drop_last()
                    } else {
                        grown
                    }
                    &&& final(self).buffer.total_lines == old(self).buffer.total_lines + 1
                    &&& final(self).cursor.y == y + 1
                    &&& final(self).cursor.x == 0
                    &&& final(self).modified
                    &&& final(self).status == Status::LinePasted
                    &&& final(self).undo_log() == if old(self).buffer.resident(y) {
                        undo_push(old(self).undo_log(), old(self).cursor_line())
                    } else {
                        old(self).undo_log()
                    }
                } else {
                    *final(self) == *old(self)
                }
            }),
    {
        if self.clipboard.len() > 0 && self.buffer.is_insertable(self.cursor.y + 1) {
            self.save_undo_state();
            let y = self.cursor.y;
            let pasted = crate::text::copy_range(&self.clipboard, 0, self.clipboard.len());
            proof {
                assert(pasted@ =~= old(self).clipboard@);
            }
            self.buffer.insert_line(y + 1, pasted);
            self.cursor.y = y + 1;
            self.cursor.x = 0;
            self.modified = true;
            self.status = Status::LinePasted;
        }
    }

    /// Pull the column back into the cursor line's bound; on a miss the
    /// column falls back to zero.
    fn clamp_column(&mut self)
        requires
            old(self).wf(),
        ensures
            final(self).wf(),
            *final(self) == (Editor { cursor: final(self).cursor, ..*old(self) }),
            final(self).cursor.y == old(self).cursor.y,
            final(self).cursor.x as int == if old(self).buffer.resident(old(self).cursor.y as int) {
                let bound = column_bound(old(self).mode, old(self).cursor_line().len() as int);
                if old(self).cursor.x <= bound {
                    old(self).cursor.x as int
                } else {
                    bound
                }
            } else {
                0int
            },
    {
        let insert_mode = self.mode == Mode::Insert;
        match self.buffer.get_line(self.cursor.y) {
            Some(line) => {
                let len = line.len();
                let bound: usize = if insert_mode {
                    len
                } else if len >= 1 {
                    len - 1
                } else {
                    0
                };
                if self.cursor.x > bound {
                    self.cursor.x = bound;
                }
            },
            None => {
                self.cursor.x = 0;
            },
        }
    }

    /// Reload the window from the store's content, centered on the cursor,
    /// and clamp the cursor line back into the document.
    fn reload_centered(&mut self, content: Option<&Vec<u8>>)
        requires
            old(self).wf(),
        ensures
            final(self).wf(),
            *final(self) == (Editor {
                buffer: final(self).buffer,
                cursor: final(self).cursor,
                ..*old(self)
            }),
            final(self).cursor.x == old(self).cursor.x,
            final(self).buffer.max_lines == old(self).buffer.max_lines,
            final(self).buffer.resident(final(self).cursor.y as int),
            ({
                let doc = match content {
                    None => seq![Seq::<u8>::empty()],
                    Some(cv) => nonempty_lines(cv@),
                };
                let desired = if WINDOW_CAPACITY / 2 <= old(self).cursor.y {
                    old(self).cursor.y - WINDOW_CAPACITY / 2
                } else {
                    0int
                };
                let total = doc.len() as int;
                let begin = if desired <= total - 1 {
                    desired
                } else {
                    total - 1
                };
                let ny = if (old(self).cursor.y as int) < total {
                    old(self).cursor.y as int
                } else {
                    total - 1
                };
                &&& final(self).buffer.total_lines == total
                &&& final(self).buffer.start_line_number == begin
                &&& final(self).cursor.y == ny
                &&& final(self).buffer.window() == crate::buffer::window_slice(
                    doc,
                    begin,
                    WINDOW_CAPACITY as int,
                )
            }),
    {
        let desired: usize = if self.cursor.y >= WINDOW_CAPACITY / 2 {
            self.cursor.y - WINDOW_CAPACITY / 2
        } else {
            0
        };
        self.buffer.load_window(content, desired);
        proof {
            let doc = match content {
                None => seq![Seq::<u8>::empty()],
                Some(cv) => nonempty_lines(cv@),
            };
            let cap = WINDOW_CAPACITY as int;
            match content {
                None => {
                    assert(crate::buffer::window_slice(doc, 0, cap) =~= seq![Seq::<u8>::empty()]);
                },
                Some(cv) => {
                    if crate::text::split_lines(cv@).len() == 0 {
                        assert(doc =~= seq![Seq::<u8>::empty()]);
                        assert(crate::buffer::window_slice(doc, 0, cap) =~= seq![
                            Seq::<u8>::empty(),
                        ]);
                    }
                },
            }
            assert(doc.len() >= 1);
            assert(self.buffer.total_lines == doc.len());
            assert(self.buffer.start_line_number as int == if desired as int <= doc.len() - 1 {
                desired as int
            } else {
                doc.len() - 1
            });
            assert(self.buffer.window() == crate::buffer::window_slice(
                doc,
                self.buffer.start_line_number as int,
                cap,
            ));
            let begin = self.buffer.start_line_number as int;
            assert(self.buffer.lines@.len() == self.buffer.window().len());
            assert(self.buffer.window().len() == (if begin + cap <= doc.len() {
                begin + cap
            } else {
                doc.len() as int
            }) - begin);
        }
        if self.cursor.y >= self.buffer.total_lines {
            self.cursor.y = self.buffer.total_lines - 1;
        }
        proof {
            assert(self.buffer.resident(self.cursor.y as int));
        }
    }

    /// Reload the window from the store's content, centered on the cursor.
    ///
    /// This is the one reload the driver performs after a miss: the cursor is
    /// clamped into the reloaded document and its line is resident afterwards.
    /// A parked insertion is applied exactly once, right after the reload, at
    /// its column clamped to the reloaded line's end; without one, the column
    /// is re-clamped to the reached line's bound.
    #[verifier::rlimit(80)]
    pub fn apply_reload(&mut self, content: Option<&Vec<u8>>)
        requires
            old(self).wf(),
        ensures
            final(self).wf(),
            *final(self) == (Editor {
                buffer: final(self).buffer,
                cursor: final(self).cursor,
                modified: final(self).modified,
                needs_reload: final(self).needs_reload,
                pending_insert: final(self).pending_insert,
                ..*old(self)
            }),
            !final(self).needs_reload,
            final(self).pending_insert is None,
            final(self).buffer.resident(final(self).cursor.y as int),
            final(self).buffer.max_lines == old(self).buffer.max_lines,
            ({
                let doc = match content {
                    None => seq![Seq::<u8>::empty()],
                    Some(cv) => nonempty_lines(cv@),
                };
                let desired = if WINDOW_CAPACITY / 2 <= old(self).cursor.y {
                    old(self).cursor.y - WINDOW_CAPACITY / 2
                } else {
                    0int
                };
                let total = doc.len() as int;
                let begin = if desired <= total - 1 {
                    desired
                } else {
                    total - 1
                };
                let w = crate::buffer::window_slice(doc, begin, WINDOW_CAPACITY as int);
                let ny = if (old(self).cursor.y as int) < total {
                    old(self).cursor.y as int
                } else {
                    total - 1
                };
                let k = ny - begin;
                &&& final(self).buffer.total_lines == total
                &&& final(self).buffer.start_line_number == begin
                &&& final(self).cursor.y == ny
                &&& match old(self).pending_insert {
                    Some(c) => {
                        let x0 = old(self).cursor.x as int;
                        let line = w[k];
                        if line.len() < MAX_LINE_LENGTH {
                            &&& final(self).buffer.window() == w.update(
                                k,
                                line_with_insert(line, x0, c),
                            )
                            &&& final(self).cursor.x == (if x0 <= line.len() {
                                x0
                            } else {
                                line.len() as int
                            }) + 1
                            &&& final(self).modified
                        } else {
                            &&& final(self).buffer.window() == w
                            &&& final(self).cursor.x == old(self).cursor.x
                            &&& final(self).modified == old(self).modified
                        }
                    },
                    None => {
                        let bound = column_bound(old(self).mode, w[k].len() as int);
                        &&& final(self).buffer.window() == w
                        &&& final(self).cursor.x as int == (if old(self).cursor.x <= bound {
                            old(self).cursor.x as int
                        } else {
                            bound
                        })
                        &&& final(self).modified == old(self).modified
                    },
                }
            }),
    {
        self.reload_centered(content);
        self.needs_reload = false;
        match self.pending_insert {
            Some(c) => {
                self.pending_insert = None;
                let ghost lines_before = self.buffer.lines@;
                let ghost k = self.cursor.y - self.buffer.start_line_number;
                match self.buffer.get_line_mut(self.cursor.y) {
                    Some(line) => {
                        let len = line.len();
                        if len < MAX_LINE_LENGTH {
                            let pos: usize = if self.cursor.x <= len {
                                self.cursor.x
                            } else {
                                len
                            };
                            line.insert(pos, c);
                            self.cursor.x = pos + 1;
                            self.modified = true;
                            proof {
                                crate::text::lemma_views_update(
                                    lines_before,
                                    k,
                                    self.buffer.lines@[k],
                                );
                                assert(self.buffer.window() =~= views(lines_before).update(
                                    k,
                                    line_with_insert(
                                        lines_before[k]@,
                                        old(self).cursor.x as int,
                                        c,
                                    ),
                                ));
                            }
                        } else {
                            proof {
                                assert(self.buffer.lines@ =~= lines_before.update(
                                    k,
                                    lines_before[k],
                                ));
                                assert(self.buffer.lines@ =~= lines_before);
                            }
                        }
                    },
                    None => {
                        proof {
                            assert(false);
                        }
                    },
                }
            },
            None => {
                self.clamp_column();
            },
        }
    }

    /// Clear a requested reload when no store backs the session: the parked
    /// insertion is retried once against the unchanged window and the column
    /// re-clamped, as after a reload.
    pub fn skip_reload(&mut self)
        requires
            old(self).wf(),
        ensures
            final(self).wf(),
            *final(self) == (Editor {
                buffer: final(self).buffer,
                cursor: final(self).cursor,
                modified: final(self).modified,
                needs_reload: final(self).needs_reload,
                pending_insert: final(self).pending_insert,
                ..*old(self)
            }),
            !final(self).needs_reload,
            final(self).pending_insert is None,
            final(self).buffer.total_lines == old(self).buffer.total_lines,
            final(self).buffer.start_line_number == old(self).buffer.start_line_number,
            final(self).buffer.max_lines == old(self).buffer.max_lines,
            ({
                let y = old(self).cursor.y as int;
                let begin = old(self).buffer.start_line_number as int;
                match old(self).pending_insert {
                    Some(c) => {
                        let x0 = old(self).cursor.x as int;
                        let line = old(self).cursor_line();
                        if old(self).buffer.resident(y) && line.len() < MAX_LINE_LENGTH {
                            &&& final(self).buffer.window() == old(self).buffer.window().update(
                                y - begin,
                                line_with_insert(line, x0, c),
                            )
                            &&& final(self).cursor.x == (if x0 <= line.len() {
                                x0
                            } else {
                                line.len() as int
                            }) + 1
                            &&& final(self).cursor.y == y
                            &&& final(self).modified
                        } else {
                            &&& final(self).buffer.window() == old(self).buffer.window()
                            &&& final(self).cursor == old(self).cursor
                            &&& final(self).modified == old(self).modified
                        }
                    },
                    None => {
                        &&& final(self).buffer.window() == old(self).buffer.window()
                        &&& final(self).cursor.y == y
                        &&& final(self).cursor.x as int == if old(self).buffer.resident(y) {
                            let bound = column_bound(
                                old(self).mode,
                                old(self).cursor_line().len() as int,
                            );
                            if old(self).cursor.x <= bound {
                                old(self).cursor.x as int
                            } else {
                                bound
                            }
                        } else {
                            0int
                        }
                        &&& final(self).modified == old(self).modified
                    },
                }
            }),
    {
        self.needs_reload = false;
        match self.pending_insert {
            Some(c) => {
                self.pending_insert = None;
                let ghost lines_before = self.buffer.lines@;
                let ghost k = self.cursor.y - self.buffer.start_line_number;
                match self.buffer.get_line_mut(self.cursor.y) {
                    Some(line) => {
                        let len = line.len();
                        if len < MAX_LINE_LENGTH {
                            let pos: usize = if self.cursor.x <= len {
                                self.cursor.x
                            } else {
                                len
                            };
                            line.insert(pos, c);
                            self.cursor.x = pos + 1;
                            self.modified = true;
                            proof {
                                crate::text::lemma_views_update(
                                    lines_before,
                                    k,
                                    self.buffer.lines@[k],
                                );
                                assert(self.buffer.window() =~= views(lines_before).update(
                                    k,
                                    line_with_insert(
                                        lines_before[k]@,
                                        old(self).cursor.x as int,
                                        c,
                                    ),
                                ));
                            }
                        } else {
                            proof {
                                assert(self.buffer.lines@ =~= lines_before.update(
                                    k,
                                    lines_before[k],
                                ));
                                assert(self.buffer.lines@ =~= lines_before);
                            }
                        }
                    },
                    None => {},
                }
            },
            None => {
                self.clamp_column();
            },
        }
    }

    /// A window position where the query occurs.
    pub open spec fn occurrence_at(self, q: Seq<u8>, li: usize, co: usize) -> bool {
        &&& self.buffer.resident(li as int)
        &&& crate::text::match_at(self.buffer.line_at(li as int), q, co as int)
    }

    /// Window-local search: every position in the resident lines where the
    /// query occurs, in ascending `(line, column)` order, capped at the match
    /// limit; what the cap cuts off is only ever the tail of that order. An
    /// empty query yields no matches.
    pub fn search(&self, query: &Vec<u8>) -> (found: Vec<(usize, usize)>)
        requires
            self.wf(),
        ensures
            query@.len() == 0 ==> found@.len() == 0,
            found@.len() <= MAX_MATCHES,
            forall|k: int|
                0 <= k < found@.len() ==> self.occurrence_at(
                    query@,
                    (#[trigger] found@[k]).0,
                    found@[k].1,
                ),
            forall|k1: int, k2: int|
                0 <= k1 < k2 < found@.len() ==> pair_lt(found@[k1], found@[k2]),
            query@.len() > 0 && found@.len() < MAX_MATCHES ==> (forall|li: usize, co: usize|
                #[trigger] self.occurrence_at(query@, li, co) ==> found@.contains((li, co))),
            forall|li: usize, co: usize, k: int|
                #![trigger self.occurrence_at(query@, li, co), found@[k]]
                self.occurrence_at(query@, li, co) && 0 <= k < found@.len() && pair_lt(
                    (li, co),
                    found@[k],
                ) ==> found@.contains((li, co)),
    {
        let mut found: Vec<(usize, usize)> = Vec::new();
        if query.len() == 0 {
            return found;
        }
        let begin = self.buffer.start_line_number;
        let wlen = self.buffer.lines.len();
        let mut li: usize = begin;
        let mut done: bool = false;
        while li < begin + wlen && !done
            invariant
                self.wf(),
                query@.len() >= 1,
                begin == self.buffer.start_line_number,
                wlen == self.buffer.lines@.len(),
                begin <= li <= begin + wlen,
                found@.len() <= MAX_MATCHES,
                !done ==> found@.len() < MAX_MATCHES,
                done ==> found@.len() == MAX_MATCHES,
                forall|k: int|
                    0 <= k < found@.len() ==> self.occurrence_at(
                        query@,
                        (#[trigger] found@[k]).0,
                        found@[k].1,
                    ),
                forall|k1: int, k2: int|
                    0 <= k1 < k2 < found@.len() ==> pair_lt(found@[k1], found@[k2]),
                !done ==> (forall|k: int|
                    0 <= k < found@.len() ==> before_point(#[trigger] found@[k], li as int, 0)),
                !done ==> (forall|a: usize, b: usize|
                    #[trigger] self.occurrence_at(query@, a, b) && before_point(
                        (a, b),
                        li as int,
                        0,
                    ) ==> found@.contains((a, b))),
                forall|a: usize, b: usize, k: int|
                    #![trigger self.occurrence_at(query@, a, b), found@[k]]
                    self.occurrence_at(query@, a, b) && 0 <= k < found@.len() && pair_lt(
                        (a, b),
                        found@[k],
                    ) ==> found@.contains((a, b)),
            decreases begin + wlen - li,
        {
            let line = &self.buffer.lines[li - begin];
            let mut p: usize = 0;
            let mut line_done: bool = false;
            while !line_done
                invariant
                    self.wf(),
                    query@.len() >= 1,
                    begin == self.buffer.start_line_number,
                    wlen == self.buffer.lines@.len(),
                    begin <= li < begin + wlen,
                    line@ == self.buffer.line_at(li as int),
                    p <= line@.len(),
                    found@.len() <= MAX_MATCHES,
                    !done ==> found@.len() < MAX_MATCHES,
                    done ==> found@.len() == MAX_MATCHES,
                    done ==> line_done,
                    forall|k: int|
                        0 <= k < found@.len() ==> self.occurrence_at(
                            query@,
                            (#[trigger] found@[k]).0,
                            found@[k].1,
                        ),
                    forall|k1: int, k2: int|
                        0 <= k1 < k2 < found@.len() ==> pair_lt(found@[k1], found@[k2]),
                    !done ==> (forall|k: int|
                        0 <= k < found@.len() ==> before_point(
                            #[trigger] found@[k],
                            li as int,
                            p as int,
                        )),
                    !done ==> (forall|a: usize, b: usize|
                        #[trigger] self.occurrence_at(query@, a, b) && before_point(
                            (a, b),
                            li as int,
                            p as int,
                        ) ==> found@.contains((a, b))),
                    !done && line_done ==> (forall|a: usize, b: usize|
                        #[trigger] self.occurrence_at(query@, a, b) && before_point(
                            (a, b),
                            li + 1 as int,
                            0,
                        ) ==> found@.contains((a, b))),
                    forall|a: usize, b: usize, k: int|
                        #![trigger self.occurrence_at(query@, a, b), found@[k]]
                        self.occurrence_at(query@, a, b) && 0 <= k < found@.len() && pair_lt(
                            (a, b),
                            found@[k],
                        ) ==> found@.contains((a, b)),
                decreases (if line_done {
                    0int
                } else {
                    1int
                }), line@.len() + 1 - p,
            {
                match crate::text::find_in_line(line, query, p) {
                    Some(i) => {
                        proof {
                            crate::text::lemma_find_match(line@, query@, p as int);
                        }
                        let ghost prev = found@;
                        found.push((li, i));
                        proof {
                            assert(found@ == prev.push((li, i)));
                            assert(self.occurrence_at(query@, li, i));
                            assert forall|a: usize, b: usize|
                                #[trigger] self.occurrence_at(query@, a, b) && before_point(
                                    (a, b),
                                    li as int,
                                    i + 1 as int,
                                ) implies found@.contains((a, b)) by {
                                if before_point((a, b), li as int, p as int) {
                                    assert(prev.contains((a, b)));
                                    let j = choose|j: int| 0 <= j < prev.len() && prev[j] == (
                                    a,
                                    b,
                                    );
                                    assert(found@[j] == (a, b));
                                    assert(found@.contains((a, b)));
                                } else if a == li && p <= b && (b as int) < i as int {
                                    assert(!crate::text::match_at(
                                        self.buffer.line_at(li as int),
                                        query@,
                                        b as int,
                                    ));
                                } else {
                                    assert((a, b) == (li, i));
                                    assert(found@[found@.len() - 1] == (li, i));
                                    assert(found@.contains((a, b)));
                                }
                            }
                        }
                        if found.len() >= MAX_MATCHES {
                            done = true;
                            line_done = true;
                        }
                        p = i + 1;
                    },
                    None => {
                        proof {
                            crate::text::lemma_find_match(line@, query@, p as int);
                            assert forall|a: usize, b: usize|
                                #[trigger] self.occurrence_at(query@, a, b) && before_point(
                                    (a, b),
                                    li + 1 as int,
                                    0,
                                ) implies found@.contains((a, b)) by {
                                if before_point((a, b), li as int, p as int) {
                                } else {
                                    assert(a == li && b >= p);
                                    assert(!crate::text::match_at(
                                        self.buffer.line_at(li as int),
                                        query@,
                                        b as int,
                                    ));
                                }
                            }
                        }
                        line_done = true;
                    },
                }
            }
            li = li + 1;
        }
        found
    }

    /// Rewrite every resident line that holds the search text, substituting
    /// all its occurrences; a rewritten line over the maximum length is
    /// clipped and counted as one replacement. Returns the total count; the
    /// session is marked modified when anything changed.
    pub fn replace_in_window(&mut self, search: &Vec<u8>, replace: &Vec<u8>) -> (count: usize)
        requires
            old(self).wf(),
        ensures
            final(self).wf(),
            *final(self) == (Editor {
                buffer: final(self).buffer,
                modified: final(self).modified,
                undo_buffer: final(self).undo_buffer,
                ..*old(self)
            }),
            final(self).buffer.total_lines == old(self).buffer.total_lines,
            final(self).buffer.start_line_number == old(self).buffer.start_line_number,
            final(self).buffer.max_lines == old(self).buffer.max_lines,
            search@.len() == 0 ==> count == 0 && *final(self) == *old(self),
            search@.len() >= 1 ==> ({
                let w = old(self).buffer.window();
                &&& final(self).buffer.window().len() == w.len()
                &&& forall|i: int|
                    0 <= i < w.len() ==> final(self).buffer.window()[i] == replaced_line(
                        #[trigger] w[i],
                        search@,
                        replace@,
                    )
                &&& count as int == window_replace_count(w, search@, replace@)
                &&& final(self).modified == (old(self).modified || count > 0)
                &&& final(self).undo_log() == if old(self).buffer.resident(
                    old(self).cursor.y as int,
                ) {
                    undo_push(old(self).undo_log(), old(self).cursor_line())
                } else {
                    old(self).undo_log()
                }
            }),
    {
        if search.len() == 0 {
            return 0;
        }
        self.save_undo_state();
        let ghost mid = *self;
        let mut count: usize = 0;
        let wlen = self.buffer.lines.len();
        let mut k: usize = 0;
        while k < wlen
            invariant
                1 <= search@.len(),
                *self == (Editor { buffer: self.buffer, modified: mid.modified, ..mid }),
                self.buffer.total_lines == mid.buffer.total_lines,
                self.buffer.start_line_number == mid.buffer.start_line_number,
                self.buffer.max_lines == mid.buffer.max_lines,
                mid.wf(),
                mid.buffer.max_lines == WINDOW_CAPACITY,
                wlen == self.buffer.lines@.len(),
                wlen == mid.buffer.lines@.len(),
                wlen <= WINDOW_CAPACITY,
                k <= wlen,
                forall|i: int|
                    0 <= i < k ==> views(self.buffer.lines@)[i] == replaced_line(
                        #[trigger] mid.buffer.window()[i],
                        search@,
                        replace@,
                    ),
                forall|i: int|
                    k <= i < wlen ==> views(self.buffer.lines@)[i] == #[trigger] mid.buffer.window()[i],
                forall|i: int|
                    0 <= i < wlen ==> (#[trigger] self.buffer.lines@[i])@.len()
                        <= MAX_LINE_LENGTH,
                count as int == window_replace_count(
                    mid.buffer.window().take(k as int),
                    search@,
                    replace@,
                ),
                count <= k * MAX_LINE_LENGTH,
            decreases wlen - k,
        {
            let ghost w = mid.buffer.window();
            let (new_line, rc) = {
                let l = &self.buffer.lines[k];
                crate::text::replace_count_line(l, search, replace)
            };
            let changed = !crate::text::bytes_eq(&new_line, &self.buffer.lines[k]);
            proof {
                assert(w.take(k + 1 as int).drop_last() =~= w.take(k as int));
                assert(w.take(k + 1 as int).last() == w[k as int]);
                assert(window_replace_count(w.take(k + 1 as int), search@, replace@)
                    == window_replace_count(w.take(k as int), search@, replace@)
                    + line_replace_count(w[k as int], search@, replace@));
            }
            if changed {
                let ghost lines_before = self.buffer.lines@;
                if new_line.len() <= MAX_LINE_LENGTH {
                    proof {
                        assert(rc as int <= MAX_LINE_LENGTH);
                    }
                    count = count + rc;
                    self.buffer.lines.set(k, new_line);
                } else {
                    let clipped_line = crate::text::copy_range(&new_line, 0, MAX_LINE_LENGTH);
                    count = count + 1;
                    self.buffer.lines.set(k, clipped_line);
                }
                proof {
                    crate::text::lemma_views_update(lines_before, k as int, self.buffer.lines@[k as int]);
                }
            }
            proof {
                assert(views(self.buffer.lines@)[k as int] == replaced_line(
                    w[k as int],
                    search@,
                    replace@,
                ));
            }
            k = k + 1;
        }
        if count > 0 {
            self.modified = true;
        }
        proof {
            assert(mid.buffer.window().take(wlen as int) =~= mid.buffer.window());
        }
        count
    }

    /// Keep the cursor's line inside the viewport of `visible_height` lines.
    pub fn update_scroll(&mut self, visible_height: usize)
        requires
            old(self).wf(),
            visible_height >= 1,
        ensures
            final(self).wf(),
            *final(self) == (Editor { offset_y: final(self).offset_y, ..*old(self) }),
            final(self).offset_y == scroll_target(
                old(self).cursor.y as int,
                old(self).offset_y as int,
                visible_height as int,
            ),
    {
        if self.cursor.y < self.offset_y {
            self.offset_y = self.cursor.y;
        } else if self.cursor.y - self.offset_y >= visible_height {
            self.offset_y = self.cursor.y - visible_height + 1;
        }
    }
}

} // verus!
