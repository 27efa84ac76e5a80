//! Core of a modal text editor for large files: a capacity-bounded window of
//! document lines, the cursor and viewport rules that keep positions valid,
//! the edit operations (insert, delete, join, split, cut, copy, paste,
//! search, bulk replace), and the modal state machine that turns key events
//! into them. Reading the store, the terminal, and painting the screen stay
//! outside; the library states which reloads and saves the driver must
//! perform and what each one yields.

pub mod buffer;
pub mod editor;
pub mod input;
pub mod text;

use vstd::prelude::*;

verus! {

/// Longest content, in bytes, that a single line may hold; longer content is
/// truncated on load and refused on insert.
pub const MAX_LINE_LENGTH: usize = 10000;

/// How many lines the window keeps resident at most.
pub const WINDOW_CAPACITY: usize = 1000;

} // verus!
