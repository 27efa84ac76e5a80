//! The modal input state machine: one logical key event at a time is turned
//! into edit operations, mode transitions and driver effects.
//!
//! The driver performs the returned effect (saving, quitting) and, after any
//! handler, the reload the session may have requested.

use vstd::prelude::*;

use crate::editor::{
    clamp_column_target, clamp_line_target, column_bound, line_with_insert, pair_lt,
    replaced_line, undo_push, window_replace_count, Editor, Mode, ReplacePhase, Status,
};
use crate::text::trimmed;
use crate::{MAX_LINE_LENGTH, WINDOW_CAPACITY};

verus! {

/// Byte values of the keys the command grammar and the normal-mode
/// bindings compare against.
pub const BYTE_Q: u8 = 113;

pub const BYTE_S: u8 = 115;

pub const BYTE_R: u8 = 114;

pub const BYTE_C: u8 = 99;

pub const BYTE_X: u8 = 120;

pub const BYTE_V: u8 = 118;

pub const BYTE_I: u8 = 105;

pub const BYTE_A: u8 = 97;

pub const BYTE_O: u8 = 111;

pub const BYTE_W: u8 = 119;

pub const BYTE_COLON: u8 = 58;

pub const BYTE_SLASH: u8 = 47;

pub const BYTE_BANG: u8 = 33;

pub const BYTE_SPACE: u8 = 32;

/// How many bytes a transient prompt (command, query, replacement) may hold.
pub const PROMPT_CAPACITY: usize = 100;

/// Events arriving within this many milliseconds of the last processed one
/// are dropped.
pub const THROTTLE_MS: u64 = 10;

/// One logical key event, as the driver decodes it.
#[derive(Clone, Copy, PartialEq, Eq, Structural, Debug)]
pub enum Key {
    /// A printable byte without a control modifier.
    Char(u8),
    /// A byte pressed together with the control modifier.
    Ctrl(u8),
    /// A function key.
    F(u8),
    Enter,
    Backspace,
    Esc,
    Up,
    Down,
    Left,
    Right,
    Home,
    End,
    PageUp,
    PageDown,
    Tab,
    Other,
}

/// What the driver must do after a key is handled.
#[derive(Clone, Copy, PartialEq, Eq, Structural, Debug)]
pub enum Effect {
    /// Nothing beyond rendering: keep running.
    Continue,
    /// End the session.
    Quit,
    /// Write `save_content()` to the named store, report the outcome through
    /// `finish_save`, and, when the flag is set and the save succeeded, quit.
    Save(bool),
}

/// What running the collected command guarantees, per the command grammar:
/// each command's effect and report, with the document, the modified flag and
/// (outside `w <name>`) the filename untouched.
pub open spec fn command_post(pre: Editor, post: Editor, eff: Effect) -> bool {
    let cmd = pre.command_buffer@;
    &&& post.modified == pre.modified
    &&& if cmd == seq![BYTE_Q] {
        &&& post.filename == pre.filename
        &&& if pre.modified {
            eff == Effect::Continue && post.status == Status::ModifiedUseBang
        } else {
            eff == Effect::Quit && post.status == pre.status
        }
    } else if cmd == seq![BYTE_Q, BYTE_BANG] {
        &&& post.filename == pre.filename
        &&& post.status == pre.status
        &&& eff == Effect::Quit
    } else if cmd == seq![BYTE_W] {
        &&& post.filename == pre.filename
        &&& if pre.filename is Some {
            eff == Effect::Save(false) && post.status == pre.status
        } else {
            eff == Effect::Continue && post.status == Status::NoFilename
        }
    } else if cmd == seq![BYTE_W, BYTE_Q] {
        &&& post.filename == pre.filename
        &&& post.status == pre.status
        &&& if pre.filename is Some {
            eff == Effect::Save(true)
        } else {
            eff == Effect::Quit
        }
    } else if cmd.len() >= 2 && cmd[0] == BYTE_W && cmd[1] == BYTE_SPACE {
        &&& post.filename matches Some(n) && n@ == trimmed(cmd.subrange(2, cmd.len() as int))
        &&& post.status == pre.status
        &&& eff == Effect::Save(false)
    } else {
        &&& post.filename == pre.filename
        &&& post.status == Status::UnknownCommand
        &&& eff == Effect::Continue
    }
}

/// What one cursor move by `(dx, dy)` guarantees, mirroring `move_cursor`:
/// only the cursor and the reload request change.
pub open spec fn move_step_post(pre: Editor, post: Editor, dx: int, dy: int) -> bool {
    &&& post == (Editor { cursor: post.cursor, needs_reload: post.needs_reload, ..pre })
    &&& ({
        let y = pre.cursor.y as int;
        let x = pre.cursor.x as int;
        let total = pre.buffer.total_lines as int;
        let ny = if dy != 0 {
            clamp_line_target(y, dy, total)
        } else {
            y
        };
        &&& post.cursor.y == ny
        &&& post.needs_reload == (pre.needs_reload || (dy != 0 && !pre.buffer.resident(ny)))
        &&& if pre.buffer.resident(ny) {
            let len = pre.buffer.line_at(ny).len() as int;
            let bound = column_bound(pre.mode, len);
            post.cursor.x == if dx != 0 {
                clamp_column_target(x, dx, bound)
            } else if dy != 0 {
                if x <= bound {
                    x
                } else {
                    bound
                }
            } else {
                x
            }
        } else {
            post.cursor.x == pre.cursor.x
        }
    })
}

/// What handling one key in normal mode guarantees, per the transition
/// table: mode changes, quit arming, save effects and the edits behind the
/// bound keys. Every arm frames the whole session: what it does not free
/// stays as it was.
pub open spec fn normal_mode_post(pre: Editor, post: Editor, key: Key, eff: Effect) -> bool {
    match key {
        Key::Ctrl(c) => if c == BYTE_Q {
            if pre.modified && !pre.quit_requested {
                &&& eff == Effect::Continue
                &&& post == (Editor {
                    quit_requested: post.quit_requested,
                    status: post.status,
                    ..pre
                })
                &&& post.quit_requested
                &&& post.status == Status::ModifiedWarning
            } else {
                eff == Effect::Quit && post == pre
            }
        } else if c == BYTE_S {
            &&& post == (Editor { quit_requested: post.quit_requested, status: post.status, ..pre })
            &&& !post.quit_requested
            &&& if pre.filename is Some {
                eff == Effect::Save(false) && post.status == pre.status
            } else {
                eff == Effect::Continue && post.status == Status::NoFilename
            }
        } else if c == BYTE_R {
            &&& eff == Effect::Continue
            &&& post == (Editor {
                mode: post.mode,
                replace_phase: post.replace_phase,
                replace_query: post.replace_query,
                replace_with: post.replace_with,
                status: post.status,
                ..pre
            })
            &&& post.mode == Mode::Replace
            &&& post.replace_phase == ReplacePhase::AwaitingQuery
            &&& post.replace_query@.len() == 0
            &&& post.replace_with@.len() == 0
            &&& post.status == Status::ReplaceMode
        } else if c == BYTE_C {
            &&& eff == Effect::Continue
            &&& post == (Editor { clipboard: post.clipboard, status: post.status, ..pre })
            &&& if pre.buffer.resident(pre.cursor.y as int) {
                post.clipboard@ == pre.cursor_line() && post.status == Status::LineCopied
            } else {
                post == pre
            }
        } else if c == BYTE_X {
            &&& eff == Effect::Continue
            &&& post == (Editor {
                buffer: post.buffer,
                cursor: post.cursor,
                clipboard: post.clipboard,
                modified: post.modified,
                status: post.status,
                undo_buffer: post.undo_buffer,
                ..pre
            })
            &&& post.buffer.total_lines >= 1
            &&& post.buffer.start_line_number == pre.buffer.start_line_number
            &&& post.buffer.max_lines == pre.buffer.max_lines
            &&& if pre.buffer.resident(pre.cursor.y as int) {
                &&& post.clipboard@ == pre.cursor_line()
                &&& post.cursor.x == 0
                &&& post.modified
                &&& post.status == Status::LineCut
                &&& post.undo_log() == undo_push(pre.undo_log(), pre.cursor_line())
                &&& if pre.buffer.total_lines == 1 {
                    post.buffer.window() == seq![Seq::<u8>::empty()] && post.buffer.total_lines
                        == 1
                } else {
                    post.buffer.window() == pre.buffer.window().remove(
                        pre.cursor.y - pre.buffer.start_line_number,
                    ) && post.buffer.total_lines == pre.buffer.total_lines - 1
                }
            } else {
                post == pre
            }
        } else if c == BYTE_V {
            &&& eff == Effect::Continue
            &&& post == (Editor {
                buffer: post.buffer,
                cursor: post.cursor,
                modified: post.modified,
                status: post.status,
                undo_buffer: post.undo_buffer,
                ..pre
            })
            &&& post.buffer.start_line_number == pre.buffer.start_line_number
            &&& post.buffer.max_lines == pre.buffer.max_lines
            &&& if pre.clipboard@.len() > 0 && pre.buffer.insertable(pre.cursor.y + 1) {
                let begin = pre.buffer.start_line_number as int;
                let grown = pre.buffer.window().insert(
                    pre.cursor.y + 1 - begin,
                    crate::text::clip_line(pre.clipboard@),
                );
                &&& post.buffer.window() == if grown.len() > WINDOW_CAPACITY {
                    grown.drop_last()
                } else {
                    grown
                }
                &&& post.cursor.y == pre.cursor.y + 1
                &&& post.cursor.x == 0
                &&& post.buffer.total_lines == pre.buffer.total_lines + 1
                &&& post.modified
                &&& post.status == Status::LinePasted
                &&& post.undo_log() == if pre.buffer.resident(pre.cursor.y as int) {
                    undo_push(pre.undo_log(), pre.cursor_line())
                } else {
                    pre.undo_log()
                }
            } else {
                post == pre
            }
        } else {
            &&& eff == Effect::Continue
            &&& post == (Editor { quit_requested: post.quit_requested, ..pre })
            &&& !post.quit_requested
        },
        Key::Char(c) => if c == BYTE_I {
            &&& eff == Effect::Continue
            &&& post == (Editor { mode: post.mode, status: post.status, ..pre })
            &&& post.mode == Mode::Insert
            &&& post.status == Status::InsertMode
        } else if c == BYTE_A {
            &&& eff == Effect::Continue
            &&& post == (Editor { mode: post.mode, cursor: post.cursor, status: post.status, ..pre })
            &&& post.mode == Mode::Insert
            &&& post.status == Status::InsertMode
            &&& post.cursor.y == pre.cursor.y
            &&& (pre.buffer.resident(pre.cursor.y as int) ==> post.cursor.x == clamp_column_target(
                pre.cursor.x as int,
                1,
                pre.cursor_line().len() as int,
            ))
            &&& (!pre.buffer.resident(pre.cursor.y as int) ==> post.cursor.x == pre.cursor.x)
        } else if c == BYTE_O {
            &&& eff == Effect::Continue
            &&& post == (Editor {
                mode: post.mode,
                buffer: post.buffer,
                cursor: post.cursor,
                modified: post.modified,
                status: post.status,
                undo_buffer: post.undo_buffer,
                ..pre
            })
            &&& post.mode == Mode::Insert
            &&& post.status == Status::InsertMode
            &&& post.buffer.start_line_number == pre.buffer.start_line_number
            &&& post.buffer.max_lines == pre.buffer.max_lines
            &&& if pre.buffer.resident(pre.cursor.y as int) {
                let begin = pre.buffer.start_line_number as int;
                let grown = pre.buffer.window().insert(
                    pre.cursor.y + 1 - begin,
                    Seq::<u8>::empty(),
                );
                &&& post.buffer.window() == if grown.len() > WINDOW_CAPACITY {
                    grown.drop_last()
                } else {
                    grown
                }
                &&& post.cursor.y == pre.cursor.y + 1
                &&& post.cursor.x == 0
                &&& post.buffer.total_lines == pre.buffer.total_lines + 1
                &&& post.modified
                &&& post.undo_log() == undo_push(pre.undo_log(), pre.cursor_line())
            } else {
                &&& post.buffer.window() == pre.buffer.window()
                &&& post.buffer.total_lines == pre.buffer.total_lines
                &&& post.cursor == pre.cursor
                &&& post.modified == pre.modified
                &&& post.undo_log() == pre.undo_log()
            }
        } else if c == BYTE_COLON {
            &&& eff == Effect::Continue
            &&& post == (Editor {
                mode: post.mode,
                command_buffer: post.command_buffer,
                status: post.status,
                ..pre
            })
            &&& post.mode == Mode::Command
            &&& post.command_buffer@.len() == 0
            &&& post.status == Status::CommandMode
        } else if c == BYTE_SLASH {
            &&& eff == Effect::Continue
            &&& post == (Editor {
                mode: post.mode,
                search_query: post.search_query,
                status: post.status,
                ..pre
            })
            &&& post.mode == Mode::Search
            &&& post.search_query@.len() == 0
            &&& post.status == Status::SearchMode
        } else {
            &&& eff == Effect::Continue
            &&& post == (Editor { quit_requested: post.quit_requested, ..pre })
            &&& !post.quit_requested
        },
        Key::F(n) => {
            &&& eff == Effect::Continue
            &&& post == (Editor {
                show_help: post.show_help,
                show_line_numbers: post.show_line_numbers,
                status: post.status,
                ..pre
            })
            &&& (n == 1 ==> post.show_help == !pre.show_help && post.show_line_numbers
                == pre.show_line_numbers)
            &&& (n == 2 ==> post.show_line_numbers == !pre.show_line_numbers && post.show_help
                == pre.show_help)
            &&& (n != 1 && n != 2 ==> post == pre)
        },
        Key::Up => eff == Effect::Continue && move_step_post(pre, post, 0, -1),
        Key::Down => eff == Effect::Continue && move_step_post(pre, post, 0, 1),
        Key::Left => eff == Effect::Continue && move_step_post(pre, post, -1, 0),
        Key::Right => eff == Effect::Continue && move_step_post(pre, post, 1, 0),
        Key::Home => {
            &&& eff == Effect::Continue
            &&& post == (Editor { cursor: post.cursor, ..pre })
            &&& post.cursor.x == 0
            &&& post.cursor.y == pre.cursor.y
        },
        Key::End => {
            &&& eff == Effect::Continue
            &&& post == (Editor { cursor: post.cursor, ..pre })
            &&& post.cursor.y == pre.cursor.y
            &&& (pre.buffer.resident(pre.cursor.y as int) ==> post.cursor.x
                == pre.cursor_line().len())
            &&& (!pre.buffer.resident(pre.cursor.y as int) ==> post.cursor.x == pre.cursor.x)
        },
        Key::PageUp => {
            &&& eff == Effect::Continue
            &&& post == (Editor { cursor: post.cursor, needs_reload: post.needs_reload, ..pre })
            &&& post.cursor.y == clamp_line_target(
                pre.cursor.y as int,
                -20,
                pre.buffer.total_lines as int,
            )
            &&& post.needs_reload
        },
        Key::PageDown => {
            &&& eff == Effect::Continue
            &&& post == (Editor { cursor: post.cursor, needs_reload: post.needs_reload, ..pre })
            &&& post.cursor.y == clamp_line_target(
                pre.cursor.y as int,
                20,
                pre.buffer.total_lines as int,
            )
            &&& post.needs_reload
        },
        Key::Esc => {
            &&& eff == Effect::Continue
            &&& post == (Editor {
                mode: post.mode,
                status: post.status,
                quit_requested: post.quit_requested,
                ..pre
            })
            &&& post.mode == Mode::Normal
            &&& !post.quit_requested
            &&& post.status == Status::NormalMode
        },
        _ => {
            &&& eff == Effect::Continue
            &&& post == (Editor { quit_requested: post.quit_requested, ..pre })
            &&& !post.quit_requested
        },
    }
}

/// What handling one key in insert mode guarantees: byte insertion, newline
/// splitting, backspace, movement, a four-space tab, and escape back to
/// normal mode with the one-column step back. Every arm frames the whole
/// session.
pub open spec fn insert_mode_post(pre: Editor, post: Editor, key: Key, eff: Effect) -> bool {
    match key {
        Key::Esc => {
            &&& eff == Effect::Continue
            &&& post == (Editor { mode: post.mode, cursor: post.cursor, status: post.status, ..pre })
            &&& post.mode == Mode::Normal
            &&& post.status == Status::NormalMode
            &&& post.cursor.y == pre.cursor.y
            &&& (pre.buffer.resident(pre.cursor.y as int) ==> post.cursor.x == clamp_column_target(
                pre.cursor.x as int,
                -1,
                column_bound(Mode::Normal, pre.cursor_line().len() as int),
            ))
            &&& (!pre.buffer.resident(pre.cursor.y as int) ==> post.cursor.x == pre.cursor.x)
        },
        Key::Ctrl(c) => {
            &&& post == (Editor { status: post.status, ..pre })
            &&& if c == BYTE_S {
                if pre.filename is Some {
                    eff == Effect::Save(false) && post == pre
                } else {
                    eff == Effect::Continue && post.status == Status::NoFilename
                }
            } else {
                eff == Effect::Continue && post == pre
            }
        },
        Key::Char(c) => {
            &&& eff == Effect::Continue
            &&& post == (Editor {
                buffer: post.buffer,
                cursor: post.cursor,
                modified: post.modified,
                status: post.status,
                undo_buffer: post.undo_buffer,
                needs_reload: post.needs_reload,
                pending_insert: post.pending_insert,
                ..pre
            })
            &&& post.buffer.total_lines == pre.buffer.total_lines
            &&& post.buffer.start_line_number == pre.buffer.start_line_number
            &&& post.buffer.max_lines == pre.buffer.max_lines
            &&& ({
                let y = pre.cursor.y as int;
                let x = pre.cursor.x as int;
                let begin = pre.buffer.start_line_number as int;
                if pre.buffer.resident(y) {
                    let line = pre.cursor_line();
                    &&& post.undo_log() == undo_push(pre.undo_log(), line)
                    &&& post.needs_reload == pre.needs_reload
                    &&& post.pending_insert == pre.pending_insert
                    &&& post.cursor.y == pre.cursor.y
                    &&& if line.len() < MAX_LINE_LENGTH {
                        let pos = if x <= line.len() {
                            x
                        } else {
                            line.len() as int
                        };
                        &&& post.buffer.window() == pre.buffer.window().update(
                            y - begin,
                            line_with_insert(line, x, c),
                        )
                        &&& post.cursor.x == pos + 1
                        &&& post.modified
                        &&& post.status == pre.status
                    } else {
                        &&& post.buffer.window() == pre.buffer.window()
                        &&& post.cursor.x == pre.cursor.x
                        &&& post.modified == pre.modified
                        &&& post.status == Status::LineTooLong
                    }
                } else {
                    &&& post.buffer.window() == pre.buffer.window()
                    &&& post.cursor == pre.cursor
                    &&& post.modified == pre.modified
                    &&& post.status == pre.status
                    &&& post.undo_log() == pre.undo_log()
                    &&& post.needs_reload
                    &&& post.pending_insert == Some(c)
                }
            })
        },
        Key::Enter => {
            &&& eff == Effect::Continue
            &&& post == (Editor {
                buffer: post.buffer,
                cursor: post.cursor,
                modified: post.modified,
                undo_buffer: post.undo_buffer,
                ..pre
            })
            &&& post.buffer.start_line_number == pre.buffer.start_line_number
            &&& post.buffer.max_lines == pre.buffer.max_lines
            &&& ({
                let y = pre.cursor.y as int;
                let x = pre.cursor.x as int;
                let begin = pre.buffer.start_line_number as int;
                if pre.buffer.resident(y) {
                    let line = pre.cursor_line();
                    let pos = if x <= line.len() {
                        x
                    } else {
                        line.len() as int
                    };
                    let grown = pre.buffer.window().update(y - begin, line.take(pos)).insert(
                        y + 1 - begin,
                        line.skip(pos),
                    );
                    &&& post.buffer.window() == if grown.len() > WINDOW_CAPACITY {
                        grown.drop_last()
                    } else {
                        grown
                    }
                    &&& post.buffer.total_lines == pre.buffer.total_lines + 1
                    &&& post.cursor.y == y + 1
                    &&& post.cursor.x == 0
                    &&& post.modified
                    &&& post.undo_log() == undo_push(pre.undo_log(), line)
                } else {
                    &&& post.buffer.window() == pre.buffer.window()
                    &&& post.buffer.total_lines == pre.buffer.total_lines
                    &&& post.cursor == pre.cursor
                    &&& post.modified == pre.modified
                    &&& post.undo_log() == pre.undo_log()
                }
            })
        },
        Key::Backspace => {
            &&& eff == Effect::Continue
            &&& post == (Editor {
                buffer: post.buffer,
                cursor: post.cursor,
                modified: post.modified,
                status: post.status,
                undo_buffer: post.undo_buffer,
                ..pre
            })
            &&& post.buffer.start_line_number == pre.buffer.start_line_number
            &&& post.buffer.max_lines == pre.buffer.max_lines
            &&& ({
                let y = pre.cursor.y as int;
                let x = pre.cursor.x as int;
                let begin = pre.buffer.start_line_number as int;
                let line = pre.cursor_line();
                &&& (x > 0 ==> post.buffer.total_lines == pre.buffer.total_lines)
                &&& (x == 0 && y == 0 ==> post == pre)
                &&& ((x > 0 && pre.buffer.resident(y) && x <= line.len() && line.len() > 0) ==> {
                    &&& post.buffer.window() == pre.buffer.window().update(
                        y - begin,
                        line.remove(x - 1),
                    )
                    &&& post.cursor.x == x - 1
                    &&& post.cursor.y == pre.cursor.y
                    &&& post.modified
                })
            })
        },
        Key::Up => eff == Effect::Continue && move_step_post(pre, post, 0, -1),
        Key::Down => eff == Effect::Continue && move_step_post(pre, post, 0, 1),
        Key::Left => eff == Effect::Continue && move_step_post(pre, post, -1, 0),
        Key::Right => eff == Effect::Continue && move_step_post(pre, post, 1, 0),
        Key::Tab => {
            &&& eff == Effect::Continue
            &&& post == (Editor {
                buffer: post.buffer,
                cursor: post.cursor,
                modified: post.modified,
                status: post.status,
                undo_buffer: post.undo_buffer,
                needs_reload: post.needs_reload,
                pending_insert: post.pending_insert,
                ..pre
            })
            &&& post.buffer.total_lines == pre.buffer.total_lines
            &&& post.buffer.start_line_number == pre.buffer.start_line_number
            &&& post.buffer.max_lines == pre.buffer.max_lines
            &&& post.buffer.window().len() == pre.buffer.window().len()
            &&& post.cursor.y == pre.cursor.y
            &&& ({
                let y = pre.cursor.y as int;
                let x = pre.cursor.x as int;
                let begin = pre.buffer.start_line_number as int;
                let line = pre.cursor_line();
                (pre.buffer.resident(y) && x <= line.len() && line.len() + 4 <= MAX_LINE_LENGTH)
                    ==> {
                    &&& post.buffer.window() == pre.buffer.window().update(
                        y - begin,
                        line.take(x) + seq![BYTE_SPACE, BYTE_SPACE, BYTE_SPACE, BYTE_SPACE]
                            + line.skip(x),
                    )
                    &&& post.cursor.x == x + 4
                    &&& post.modified
                    &&& post.status == pre.status
                }
            })
        },
        _ => eff == Effect::Continue && post == pre,
    }
}

/// What handling one key in command mode guarantees: the command text is
/// collected, run on enter per the command grammar, discarded on escape.
/// Every arm frames the whole session.
pub open spec fn command_mode_post(pre: Editor, post: Editor, key: Key, eff: Effect) -> bool {
    match key {
        Key::Esc => {
            &&& eff == Effect::Continue
            &&& post == (Editor {
                mode: post.mode,
                command_buffer: post.command_buffer,
                status: post.status,
                ..pre
            })
            &&& post.mode == Mode::Normal
            &&& post.command_buffer@.len() == 0
            &&& post.status == Status::NormalMode
        },
        Key::Enter => {
            &&& post == (Editor {
                mode: post.mode,
                command_buffer: post.command_buffer,
                status: post.status,
                filename: post.filename,
                ..pre
            })
            &&& post.mode == Mode::Normal
            &&& post.command_buffer@.len() == 0
            &&& command_post(pre, post, eff)
        },
        Key::Char(c) => {
            &&& eff == Effect::Continue
            &&& post == (Editor { command_buffer: post.command_buffer, ..pre })
            &&& post.command_buffer@ == if pre.command_buffer@.len() < PROMPT_CAPACITY {
                pre.command_buffer@.push(c)
            } else {
                pre.command_buffer@
            }
        },
        Key::Backspace => {
            &&& eff == Effect::Continue
            &&& post == (Editor { command_buffer: post.command_buffer, ..pre })
            &&& post.command_buffer@ == if pre.command_buffer@.len() > 0 {
                pre.command_buffer@.drop_last()
            } else {
                pre.command_buffer@
            }
        },
        _ => eff == Effect::Continue && post == pre,
    }
}

/// What handling one key in search mode guarantees: the query is collected,
/// and enter jumps to the least occurrence in the window. Every arm frames
/// the whole session.
pub open spec fn search_mode_post(pre: Editor, post: Editor, key: Key, eff: Effect) -> bool {
    match key {
        Key::Esc => {
            &&& eff == Effect::Continue
            &&& post == (Editor {
                mode: post.mode,
                search_query: post.search_query,
                status: post.status,
                ..pre
            })
            &&& post.mode == Mode::Normal
            &&& post.search_query@.len() == 0
            &&& post.status == Status::NormalMode
        },
        Key::Enter => {
            let q = pre.search_query@;
            &&& eff == Effect::Continue
            &&& post == (Editor {
                mode: post.mode,
                cursor: post.cursor,
                needs_reload: post.needs_reload,
                status: post.status,
                ..pre
            })
            &&& post.mode == Mode::Normal
            &&& if q.len() >= 1 && (exists|li: usize, co: usize| pre.occurrence_at(q, li, co)) {
                &&& pre.occurrence_at(q, post.cursor.y, post.cursor.x)
                &&& forall|li: usize, co: usize|
                    #[trigger] pre.occurrence_at(q, li, co) ==> !pair_lt(
                        (li, co),
                        (post.cursor.y, post.cursor.x),
                    )
                &&& post.needs_reload
                &&& post.status matches Status::FoundMatches(_)
            } else {
                &&& post.cursor == pre.cursor
                &&& post.needs_reload == pre.needs_reload
                &&& post.status == Status::NoMatches
            }
        },
        Key::Char(c) => {
            &&& eff == Effect::Continue
            &&& post == (Editor { search_query: post.search_query, ..pre })
            &&& post.search_query@ == if pre.search_query@.len() < PROMPT_CAPACITY {
                pre.search_query@.push(c)
            } else {
                pre.search_query@
            }
        },
        Key::Backspace => {
            &&& eff == Effect::Continue
            &&& post == (Editor { search_query: post.search_query, ..pre })
            &&& post.search_query@ == if pre.search_query@.len() > 0 {
                pre.search_query@.drop_last()
            } else {
                pre.search_query@
            }
        },
        _ => eff == Effect::Continue && post == pre,
    }
}

/// What handling one key in replace mode guarantees: the query and the
/// replacement are collected in turn, and the second enter rewrites the
/// window. Every arm frames the whole session.
pub open spec fn replace_mode_post(pre: Editor, post: Editor, key: Key, eff: Effect) -> bool {
    match key {
        Key::Esc => {
            &&& eff == Effect::Continue
            &&& post == (Editor {
                mode: post.mode,
                replace_query: post.replace_query,
                replace_with: post.replace_with,
                replace_phase: post.replace_phase,
                status: post.status,
                ..pre
            })
            &&& post.mode == Mode::Normal
            &&& post.replace_query@.len() == 0
            &&& post.replace_with@.len() == 0
            &&& post.replace_phase == ReplacePhase::AwaitingQuery
            &&& post.status == Status::NormalMode
        },
        Key::Enter => {
            let pat = pre.replace_query@;
            let rep = pre.replace_with@;
            if pre.replace_phase == ReplacePhase::AwaitingQuery {
                if pat.len() == 0 {
                    &&& eff == Effect::Continue
                    &&& post == (Editor { mode: post.mode, ..pre })
                    &&& post.mode == Mode::Normal
                } else {
                    &&& eff == Effect::Continue
                    &&& post == (Editor {
                        replace_phase: post.replace_phase,
                        status: post.status,
                        ..pre
                    })
                    &&& post.replace_phase == ReplacePhase::AwaitingReplacement
                    &&& post.status == Status::EnterReplacement
                }
            } else {
                &&& eff == Effect::Continue
                &&& post == (Editor {
                    mode: post.mode,
                    replace_phase: post.replace_phase,
                    buffer: post.buffer,
                    modified: post.modified,
                    status: post.status,
                    undo_buffer: post.undo_buffer,
                    ..pre
                })
                &&& post.mode == Mode::Normal
                &&& post.replace_phase == ReplacePhase::AwaitingQuery
                &&& post.buffer.total_lines == pre.buffer.total_lines
                &&& post.buffer.start_line_number == pre.buffer.start_line_number
                &&& post.buffer.max_lines == pre.buffer.max_lines
                &&& if pat.len() >= 1 {
                    let w = pre.buffer.window();
                    &&& post.buffer.window().len() == w.len()
                    &&& forall|i: int|
                        0 <= i < w.len() ==> post.buffer.window()[i] == replaced_line(
                            #[trigger] w[i],
                            pat,
                            rep,
                        )
                    &&& post.status == Status::Replaced(
                        window_replace_count(w, pat, rep) as usize,
                    )
                    &&& post.modified == (pre.modified || window_replace_count(w, pat, rep) > 0)
                    &&& post.undo_log() == if pre.buffer.resident(pre.cursor.y as int) {
                        undo_push(pre.undo_log(), pre.cursor_line())
                    } else {
                        pre.undo_log()
                    }
                } else {
                    &&& post.buffer.window() == pre.buffer.window()
                    &&& post.modified == pre.modified
                    &&& post.status == pre.status
                    &&& post.undo_log() == pre.undo_log()
                }
            }
        },
        Key::Char(c) => {
            &&& eff == Effect::Continue
            &&& post == (Editor {
                replace_query: post.replace_query,
                replace_with: post.replace_with,
                ..pre
            })
            &&& if pre.replace_phase == ReplacePhase::AwaitingQuery {
                &&& post.replace_with == pre.replace_with
                &&& post.replace_query@ == if pre.replace_query@.len() < PROMPT_CAPACITY {
                    pre.replace_query@.push(c)
                } else {
                    pre.replace_query@
                }
            } else {
                &&& post.replace_query == pre.replace_query
                &&& post.replace_with@ == if pre.replace_with@.len() < PROMPT_CAPACITY {
                    pre.replace_with@.push(c)
                } else {
                    pre.replace_with@
                }
            }
        },
        Key::Backspace => {
            &&& eff == Effect::Continue
            &&& post == (Editor {
                replace_query: post.replace_query,
                replace_with: post.replace_with,
                ..pre
            })
            &&& if pre.replace_phase == ReplacePhase::AwaitingQuery {
                &&& post.replace_with == pre.replace_with
                &&& post.replace_query@ == if pre.replace_query@.len() > 0 {
                    pre.replace_query@.drop_last()
                } else {
                    pre.replace_query@
                }
            } else {
                &&& post.replace_query == pre.replace_query
                &&& post.replace_with@ == if pre.replace_with@.len() > 0 {
                    pre.replace_with@.drop_last()
                } else {
                    pre.replace_with@
                }
            }
        },
        _ => eff == Effect::Continue && post == pre,
    }
}

impl Editor {
    /// Handle one key in normal mode, per the transition table.
    #[verifier::rlimit(80)]
    pub fn handle_normal_mode(&mut self, key: Key) -> (eff: Effect)
        requires
            old(self).wf(),
            old(self).buffer.total_lines < usize::MAX,
        ensures
            final(self).wf(),
            final(self).last_operation_ms == old(self).last_operation_ms,
            normal_mode_post(*old(self), *final(self), key, eff),
    {
        match key {
            Key::Ctrl(c) => {
                if c == BYTE_Q {
                    if self.modified && !self.quit_requested {
                        self.status = Status::ModifiedWarning;
                        self.quit_requested = true;
                        Effect::Continue
                    } else {
                        Effect::Quit
                    }
                } else if c == BYTE_S {
                    self.quit_requested = false;
                    if self.filename.is_some() {
                        Effect::Save(false)
                    } else {
                        self.status = Status::NoFilename;
                        Effect::Continue
                    }
                } else if c == BYTE_R {
                    self.mode = Mode::Replace;
                    self.replace_phase = ReplacePhase::AwaitingQuery;
                    self.replace_query = Vec::new();
                    self.replace_with = Vec::new();
                    self.status = Status::ReplaceMode;
                    Effect::Continue
                } else if c == BYTE_C {
                    self.copy_line();
                    Effect::Continue
                } else if c == BYTE_X {
                    self.cut_line();
                    Effect::Continue
                } else if c == BYTE_V {
                    self.paste_line();
                    Effect::Continue
                } else {
                    self.quit_requested = false;
                    Effect::Continue
                }
            },
            Key::Char(c) => {
                if c == BYTE_I {
                    self.mode = Mode::Insert;
                    self.status = Status::InsertMode;
                    Effect::Continue
                } else if c == BYTE_A {
                    self.mode = Mode::Insert;
                    self.move_cursor(1, 0);
                    self.status = Status::InsertMode;
                    Effect::Continue
                } else if c == BYTE_O {
                    self.mode = Mode::Insert;
                    match self.buffer.get_line(self.cursor.y) {
                        Some(line) => {
                            self.cursor.x = line.len();
                        },
                        None => {},
                    }
                    self.insert_newline();
                    proof {
                        if old(self).buffer.resident(old(self).cursor.y as int) {
                            let begin = old(self).buffer.start_line_number as int;
                            let k = old(self).cursor.y - begin;
                            let line = old(self).cursor_line();
                            assert(line.take(line.len() as int) =~= line);
                            assert(line.skip(line.len() as int) =~= Seq::<u8>::empty());
                            assert(old(self).buffer.window().update(k, line) =~= old(
                                self,
                            ).buffer.window());
                        }
                    }
                    self.status = Status::InsertMode;
                    Effect::Continue
                } else if c == BYTE_COLON {
                    self.mode = Mode::Command;
                    self.command_buffer = Vec::new();
                    self.status = Status::CommandMode;
                    Effect::Continue
                } else if c == BYTE_SLASH {
                    self.mode = Mode::Search;
                    self.search_query = Vec::new();
                    self.status = Status::SearchMode;
                    Effect::Continue
                } else {
                    self.quit_requested = false;
                    Effect::Continue
                }
            },
            Key::F(n) => {
                if n == 1 {
                    self.show_help = !self.show_help;
                    self.status = if self.show_help {
                        Status::HelpShown
                    } else {
                        Status::HelpHidden
                    };
                } else if n == 2 {
                    self.show_line_numbers = !self.show_line_numbers;
                    self.status = if self.show_line_numbers {
                        Status::LineNumbersShown
                    } else {
                        Status::LineNumbersHidden
                    };
                }
                Effect::Continue
            },
            Key::Up => {
                self.move_cursor(0, -1);
                Effect::Continue
            },
            Key::Down => {
                self.move_cursor(0, 1);
                Effect::Continue
            },
            Key::Left => {
                self.move_cursor(-1, 0);
                Effect::Continue
            },
            Key::Right => {
                self.move_cursor(1, 0);
                Effect::Continue
            },
            Key::Home => {
                self.cursor.x = 0;
                Effect::Continue
            },
            Key::End => {
                match self.buffer.get_line(self.cursor.y) {
                    Some(line) => {
                        self.cursor.x = line.len();
                    },
                    None => {},
                }
                Effect::Continue
            },
            Key::PageUp => {
                self.move_cursor(0, -20);
                self.needs_reload = true;
                Effect::Continue
            },
            Key::PageDown => {
                self.move_cursor(0, 20);
                self.needs_reload = true;
                Effect::Continue
            },
            Key::Esc => {
                self.mode = Mode::Normal;
                self.status = Status::NormalMode;
                self.quit_requested = false;
                Effect::Continue
            },
            _ => {
                self.quit_requested = false;
                Effect::Continue
            },
        }
    }

    /// Handle one key in insert mode: printable bytes are inserted, the
    /// structural keys edit, and escape falls back to normal mode.
    #[verifier::rlimit(100)]
    pub fn handle_insert_mode(&mut self, key: Key) -> (eff: Effect)
        requires
            old(self).wf(),
            old(self).buffer.total_lines < usize::MAX,
        ensures
            final(self).wf(),
            final(self).last_operation_ms == old(self).last_operation_ms,
            insert_mode_post(*old(self), *final(self), key, eff),
    {
        match key {
            Key::Esc => {
                self.mode = Mode::Normal;
                self.move_cursor(-1, 0);
                self.status = Status::NormalMode;
                Effect::Continue
            },
            Key::Ctrl(c) => {
                if c == BYTE_S {
                    if self.filename.is_some() {
                        Effect::Save(false)
                    } else {
                        self.status = Status::NoFilename;
                        Effect::Continue
                    }
                } else {
                    Effect::Continue
                }
            },
            Key::Char(c) => {
                self.insert_char(c);
                Effect::Continue
            },
            Key::Enter => {
                self.insert_newline();
                Effect::Continue
            },
            Key::Backspace => {
                self.delete_char();
                Effect::Continue
            },
            Key::Up => {
                self.move_cursor(0, -1);
                Effect::Continue
            },
            Key::Down => {
                self.move_cursor(0, 1);
                Effect::Continue
            },
            Key::Left => {
                self.move_cursor(-1, 0);
                Effect::Continue
            },
            Key::Right => {
                self.move_cursor(1, 0);
                Effect::Continue
            },
            Key::Tab => {
                let ghost s0 = *self;
                self.insert_char(BYTE_SPACE);
                let ghost s1 = *self;
                self.insert_char(BYTE_SPACE);
                let ghost s2 = *self;
                self.insert_char(BYTE_SPACE);
                let ghost s3 = *self;
                self.insert_char(BYTE_SPACE);
                proof {
                    let y = s0.cursor.y as int;
                    let x = s0.cursor.x as int;
                    let begin = s0.buffer.start_line_number as int;
                    let k = y - begin;
                    let line = s0.cursor_line();
                    let pad = seq![BYTE_SPACE, BYTE_SPACE, BYTE_SPACE, BYTE_SPACE];
                    if s0.buffer.resident(y) && x <= line.len() && line.len() + 4
                        <= MAX_LINE_LENGTH {
                        let l1 = line_with_insert(line, x, BYTE_SPACE);
                        assert(s1.buffer.window() == s0.buffer.window().update(k, l1));
                        assert(s1.buffer.window().len() == s1.buffer.lines@.len());
                        assert(s1.buffer.window().len() == s0.buffer.window().len());
                        assert(s1.buffer.resident(y));
                        assert(s1.buffer.window()[k] == l1);
                        assert(s1.cursor_line() == s1.buffer.window()[k]);
                        assert(s1.cursor.x == x + 1);
                        assert(l1 =~= line.take(x) + pad.take(1) + line.skip(x));
                        let l2 = line_with_insert(l1, x + 1, BYTE_SPACE);
                        assert(s2.buffer.window() == s1.buffer.window().update(k, l2));
                        assert(s2.buffer.window().len() == s2.buffer.lines@.len());
                        assert(s2.buffer.window().len() == s1.buffer.window().len());
                        assert(s2.buffer.resident(y));
                        assert(s2.buffer.window()[k] == l2);
                        assert(s2.cursor_line() == s2.buffer.window()[k]);
                        assert(s2.cursor.x == x + 2);
                        assert(l2 =~= line.take(x) + pad.take(2) + line.skip(x));
                        let l3 = line_with_insert(l2, x + 2, BYTE_SPACE);
                        assert(s3.buffer.window() == s2.buffer.window().update(k, l3));
                        assert(s3.buffer.window().len() == s3.buffer.lines@.len());
                        assert(s3.buffer.window().len() == s2.buffer.window().len());
                        assert(s3.buffer.resident(y));
                        assert(s3.buffer.window()[k] == l3);
                        assert(s3.cursor_line() == s3.buffer.window()[k]);
                        assert(s3.cursor.x == x + 3);
                        assert(l3 =~= line.take(x) + pad.take(3) + line.skip(x));
                        let l4 = line_with_insert(l3, x + 3, BYTE_SPACE);
                        assert(self.buffer.window() == s3.buffer.window().update(k, l4));
                        assert(l4 =~= line.take(x) + pad + line.skip(x));
                        assert(self.buffer.window() =~= s0.buffer.window().update(k, l4));
                    }
                }
                Effect::Continue
            },
            _ => Effect::Continue,
        }
    }

    /// Run the command the command buffer holds, per the command grammar,
    /// and clear the buffer.
    pub fn execute_command(&mut self) -> (eff: Effect)
        requires
            old(self).wf(),
        ensures
            final(self).wf(),
            *final(self) == (Editor {
                command_buffer: final(self).command_buffer,
                status: final(self).status,
                filename: final(self).filename,
                ..*old(self)
            }),
            final(self).command_buffer@.len() == 0,
            command_post(*old(self), *final(self), eff),
    {
        let cmd = &self.command_buffer;
        let eff: Effect;
        if cmd.len() == 1 && cmd[0] == BYTE_Q {
            proof {
                assert(old(self).command_buffer@ =~= seq![BYTE_Q]);
            }
            if self.modified {
                self.status = Status::ModifiedUseBang;
                eff = Effect::Continue;
            } else {
                eff = Effect::Quit;
            }
        } else if cmd.len() == 2 && cmd[0] == BYTE_Q && cmd[1] == BYTE_BANG {
            proof {
                assert(old(self).command_buffer@ =~= seq![BYTE_Q, BYTE_BANG]);
            }
            eff = Effect::Quit;
        } else if cmd.len() == 1 && cmd[0] == BYTE_W {
            proof {
                assert(old(self).command_buffer@ =~= seq![BYTE_W]);
            }
            if self.filename.is_some() {
                eff = Effect::Save(false);
            } else {
                self.status = Status::NoFilename;
                eff = Effect::Continue;
            }
        } else if cmd.len() == 2 && cmd[0] == BYTE_W && cmd[1] == BYTE_Q {
            proof {
                assert(old(self).command_buffer@ =~= seq![BYTE_W, BYTE_Q]);
            }
            if self.filename.is_some() {
                eff = Effect::Save(true);
            } else {
                eff = Effect::Quit;
            }
        } else if cmd.len() >= 2 && cmd[0] == BYTE_W && cmd[1] == BYTE_SPACE {
            let rest = crate::text::copy_range(cmd, 2, cmd.len());
            let name = crate::text::trim_blanks(&rest);
            proof {
                assert(rest@ == old(self).command_buffer@.subrange(
                    2,
                    old(self).command_buffer@.len() as int,
                ));
            }
            self.filename = Some(name);
            eff = Effect::Save(false);
        } else {
            self.status = Status::UnknownCommand;
            eff = Effect::Continue;
        }
        self.command_buffer = Vec::new();
        eff
    }

    /// Handle one key in command mode: collect the command text, run it on
    /// enter, discard it on escape.
    pub fn handle_command_mode(&mut self, key: Key) -> (eff: Effect)
        requires
            old(self).wf(),
        ensures
            final(self).wf(),
            final(self).last_operation_ms == old(self).last_operation_ms,
            final(self).buffer.window() == old(self).buffer.window(),
            final(self).cursor == old(self).cursor,
            command_mode_post(*old(self), *final(self), key, eff),
    {
        match key {
            Key::Esc => {
                self.mode = Mode::Normal;
                self.command_buffer = Vec::new();
                self.status = Status::NormalMode;
                Effect::Continue
            },
            Key::Enter => {
                let eff = self.execute_command();
                self.mode = Mode::Normal;
                eff
            },
            Key::Char(c) => {
                if self.command_buffer.len() < PROMPT_CAPACITY {
                    self.command_buffer.push(c);
                }
                Effect::Continue
            },
            Key::Backspace => {
                let _ = self.command_buffer.pop();
                Effect::Continue
            },
            _ => Effect::Continue,
        }
    }

    /// Handle one key in search mode: collect the query, on enter run the
    /// window-local search and jump to the first match.
    pub fn handle_search_mode(&mut self, key: Key) -> (eff: Effect)
        requires
            old(self).wf(),
        ensures
            final(self).wf(),
            final(self).last_operation_ms == old(self).last_operation_ms,
            final(self).buffer.window() == old(self).buffer.window(),
            search_mode_post(*old(self), *final(self), key, eff),
    {
        match key {
            Key::Esc => {
                self.mode = Mode::Normal;
                self.search_query = Vec::new();
                self.status = Status::NormalMode;
                Effect::Continue
            },
            Key::Enter => {
                let query = crate::text::copy_range(&self.search_query, 0, self.search_query.len());
                proof {
                    assert(query@ =~= old(self).search_query@);
                }
                let found = self.search(&query);
                if found.len() > 0 {
                    let first = found[0];
                    self.cursor.y = first.0;
                    self.cursor.x = first.1;
                    self.needs_reload = true;
                    self.status = Status::FoundMatches(found.len());
                    proof {
                        assert(old(self).occurrence_at(query@, first.0, first.1));
                        assert forall|li: usize, co: usize|
                            #[trigger] old(self).occurrence_at(query@, li, co) implies !pair_lt(
                            (li, co),
                            (first.0, first.1),
                        ) by {
                            if pair_lt((li, co), found@[0]) {
                                assert(found@.contains((li, co)));
                                let j = choose|j: int|
                                    0 <= j < found@.len() && found@[j] == (li, co);
                                if j > 0 {
                                    assert(pair_lt(found@[0], found@[j]));
                                }
                            }
                        }
                    }
                } else {
                    self.status = Status::NoMatches;
                    proof {
                        if old(self).search_query@.len() >= 1 {
                            assert forall|li: usize, co: usize| !(#[trigger] old(self).occurrence_at(query@, li, co)) by {
                                if old(self).occurrence_at(query@, li, co) {
                                    assert(found@.contains((li, co)));
                                }
                            }
                        }
                    }
                }
                self.mode = Mode::Normal;
                Effect::Continue
            },
            Key::Char(c) => {
                if self.search_query.len() < PROMPT_CAPACITY {
                    self.search_query.push(c);
                }
                Effect::Continue
            },
            Key::Backspace => {
                let _ = self.search_query.pop();
                Effect::Continue
            },
            _ => Effect::Continue,
        }
    }

    /// Handle one key in replace mode: collect first the query, then the
    /// replacement, and on the second enter rewrite the window.
    pub fn handle_replace_mode(&mut self, key: Key) -> (eff: Effect)
        requires
            old(self).wf(),
        ensures
            final(self).wf(),
            final(self).last_operation_ms == old(self).last_operation_ms,
            replace_mode_post(*old(self), *final(self), key, eff),
    {
        match key {
            Key::Esc => {
                self.mode = Mode::Normal;
                self.replace_query = Vec::new();
                self.replace_with = Vec::new();
                self.replace_phase = ReplacePhase::AwaitingQuery;
                self.status = Status::NormalMode;
                Effect::Continue
            },
            Key::Enter => {
                match self.replace_phase {
                    ReplacePhase::AwaitingQuery => {
                        if self.replace_query.len() == 0 {
                            self.mode = Mode::Normal;
                        } else {
                            self.replace_phase = ReplacePhase::AwaitingReplacement;
                            self.status = Status::EnterReplacement;
                        }
                    },
                    ReplacePhase::AwaitingReplacement => {
                        let pat = crate::text::copy_range(
                            &self.replace_query,
                            0,
                            self.replace_query.len(),
                        );
                        let rep = crate::text::copy_range(
                            &self.replace_with,
                            0,
                            self.replace_with.len(),
                        );
                        proof {
                            assert(pat@ =~= old(self).replace_query@);
                            assert(rep@ =~= old(self).replace_with@);
                        }
                        if pat.len() > 0 {
                            let count = self.replace_in_window(&pat, &rep);
                            self.status = Status::Replaced(count);
                        }
                        self.replace_phase = ReplacePhase::AwaitingQuery;
                        self.mode = Mode::Normal;
                    },
                }
                Effect::Continue
            },
            Key::Char(c) => {
                match self.replace_phase {
                    ReplacePhase::AwaitingQuery => {
                        if self.replace_query.len() < PROMPT_CAPACITY {
                            self.replace_query.push(c);
                        }
                    },
                    ReplacePhase::AwaitingReplacement => {
                        if self.replace_with.len() < PROMPT_CAPACITY {
                            self.replace_with.push(c);
                        }
                    },
                }
                Effect::Continue
            },
            Key::Backspace => {
                match self.replace_phase {
                    ReplacePhase::AwaitingQuery => {
                        let _ = self.replace_query.pop();
                    },
                    ReplacePhase::AwaitingReplacement => {
                        let _ = self.replace_with.pop();
                    },
                }
                Effect::Continue
            },
            _ => Effect::Continue,
        }
    }

    /// Handle one logical key event: events arriving faster than the
    /// throttle are dropped; otherwise the active mode's handler runs. Any
    /// reload the handler requested is left in `needs_reload` for the driver.
    pub fn handle_key(&mut self, key: Key, now_ms: u64) -> (eff: Effect)
        requires
            old(self).wf(),
            old(self).buffer.total_lines < usize::MAX,
        ensures
            final(self).wf(),
            (now_ms < old(self).last_operation_ms + THROTTLE_MS) ==> (*final(self) == *old(self)
                && eff == Effect::Continue),
            (now_ms >= old(self).last_operation_ms + THROTTLE_MS) ==> final(self).last_operation_ms == now_ms,
            (now_ms >= old(self).last_operation_ms + THROTTLE_MS) ==> ({
                let pre = (Editor { last_operation_ms: now_ms, ..*old(self) });
                match old(self).mode {
                    Mode::Normal => normal_mode_post(pre, *final(self), key, eff),
                    Mode::Insert => insert_mode_post(pre, *final(self), key, eff),
                    Mode::Command => command_mode_post(pre, *final(self), key, eff),
                    Mode::Search => search_mode_post(pre, *final(self), key, eff),
                    Mode::Replace => replace_mode_post(pre, *final(self), key, eff),
                }
            }),
    {
        let elapsed: u64 = if now_ms >= self.last_operation_ms {
            now_ms - self.last_operation_ms
        } else {
            0
        };
        if elapsed < THROTTLE_MS {
            return Effect::Continue;
        }
        self.last_operation_ms = now_ms;
        match self.mode {
            Mode::Normal => self.handle_normal_mode(key),
            Mode::Insert => self.handle_insert_mode(key),
            Mode::Command => self.handle_command_mode(key),
            Mode::Search => self.handle_search_mode(key),
            Mode::Replace => self.handle_replace_mode(key),
        }
    }
}

} // verus!
