//! The windowed line buffer: a capacity-bounded slice of the document's lines
//! held in memory, together with the document's total line count.
//!
//! Loading replaces the whole window; reads and edits outside the resident
//! range are reported as misses, never performed.

use vstd::prelude::*;

use crate::text::{clip_line, clipped, split_content, split_lines, views};
use crate::text::{lemma_views_drop_last, lemma_views_insert, lemma_views_push, lemma_views_remove};
use crate::MAX_LINE_LENGTH;

verus! {

/// The slice of `all` that a window of capacity `cap` starting at `start`
/// holds, each line clipped to the maximum length.
pub open spec fn window_slice(all: Seq<Seq<u8>>, start: int, cap: int) -> Seq<Seq<u8>> {
    clipped(all).subrange(
        start,
        if start + cap <= all.len() {
            start + cap
        } else {
            all.len() as int
        },
    )
}

pub struct LineBuffer {
    /// The resident lines, in document order.
    pub lines: Vec<Vec<u8>>,
    /// Capacity: how many lines the window may hold.
    pub max_lines: usize,
    /// Document index of the first resident line.
    pub start_line_number: usize,
    /// How many lines the whole document has.
    pub total_lines: usize,
}

impl LineBuffer {
    /// The resident lines as mathematical sequences.
    pub open spec fn window(self) -> Seq<Seq<u8>> {
        views(self.lines@)
    }

    /// Structural invariant of the window.
    pub open spec fn wf(self) -> bool {
        &&& self.start_line_number + self.lines@.len() <= self.total_lines
        &&& self.lines@.len() <= self.max_lines
        &&& forall|i: int|
            0 <= i < self.lines@.len() ==> (#[trigger] self.lines@[i])@.len() <= MAX_LINE_LENGTH
    }

    /// The document line `index` is held in the window.
    pub open spec fn resident(self, index: int) -> bool {
        self.start_line_number <= index < self.start_line_number + self.lines@.len()
    }

    /// An insertion point: within the window or immediately past it.
    pub open spec fn insertable(self, index: int) -> bool {
        self.start_line_number <= index <= self.start_line_number + self.lines@.len()
    }

    /// Content of the resident document line `index`.
    pub open spec fn line_at(self, index: int) -> Seq<u8>
        recommends
            self.resident(index),
    {
        self.lines@[index - self.start_line_number]@
    }

    /// An empty buffer holding no document.
    pub fn new(max_lines: usize) -> (r: LineBuffer)
        ensures
            r.wf(),
            r.lines@.len() == 0,
            r.max_lines == max_lines,
            r.start_line_number == 0,
            r.total_lines == 0,
    {
        LineBuffer { lines: Vec::new(), max_lines, start_line_number: 0, total_lines: 0 }
    }

    /// Replace the window with a slice of the store's lines.
    ///
    /// An absent or empty store yields one empty line. Otherwise the window is
    /// filled from `desired_start`, clamped into the document, up to capacity
    /// lines; overlong lines are clipped.
    pub fn load_window(&mut self, content: Option<&Vec<u8>>, desired_start: usize)
        requires
            old(self).max_lines >= 1,
        ensures
            final(self).wf(),
            final(self).max_lines == old(self).max_lines,
            final(self).total_lines >= 1,
            match content {
                None => {
                    &&& final(self).total_lines == 1
                    &&& final(self).start_line_number == 0
                    &&& final(self).window() == seq![Seq::<u8>::empty()]
                },
                Some(c) => {
                    let all = split_lines(c@);
                    if all.len() == 0 {
                        &&& final(self).total_lines == 1
                        &&& final(self).start_line_number == 0
                        &&& final(self).window() == seq![Seq::<u8>::empty()]
                    } else {
                        let begin = if (desired_start as int) < all.len() {
                            desired_start as int
                        } else {
                            all.len() - 1
                        };
                        &&& final(self).total_lines == all.len()
                        &&& final(self).start_line_number == begin
                        &&& final(self).window() == window_slice(all, begin, old(self).max_lines as int)
                    }
                },
            },
    {
        self.lines = Vec::new();
        match content {
            None => {
                self.lines.push(Vec::new());
                self.total_lines = 1;
                self.start_line_number = 0;
                proof {
                    assert(self.window() =~= seq![Seq::<u8>::empty()]);
                }
            },
            Some(c) => {
                let all = split_content(c);
                if all.len() == 0 {
                    self.lines.push(Vec::new());
                    self.total_lines = 1;
                    self.start_line_number = 0;
                    proof {
                        assert(self.window() =~= seq![Seq::<u8>::empty()]);
                    }
                } else {
                    self.total_lines = all.len();
                    self.start_line_number = if desired_start < all.len() {
                        desired_start
                    } else {
                        all.len() - 1
                    };
                    let begin = self.start_line_number;
                    let end: usize = if all.len() - begin > self.max_lines {
                        begin + self.max_lines
                    } else {
                        all.len()
                    };
                    let mut k: usize = begin;
                    while k < end
                        invariant
                            begin <= k <= end <= all@.len(),
                            self.max_lines == old(self).max_lines,
                            self.total_lines == all@.len(),
                            self.start_line_number == begin,
                            all@.len() >= 1,
                            begin as int == if (desired_start as int) < all@.len() {
                                desired_start as int
                            } else {
                                all@.len() - 1
                            },
                            end as int == if begin + self.max_lines <= all@.len() {
                                begin + self.max_lines
                            } else {
                                all@.len() as int
                            },
                            views(all@) == split_lines(c@),
                            views(self.lines@) == clipped(views(all@)).subrange(
                                begin as int,
                                k as int,
                            ),
                        decreases end - k,
                    {
                        let ln: &Vec<u8> = &all[k];
                        let line: Vec<u8> = if ln.len() > MAX_LINE_LENGTH {
                            crate::text::copy_range(ln, 0, MAX_LINE_LENGTH)
                        } else {
                            crate::text::copy_range(ln, 0, ln.len())
                        };
                        proof {
                            assert(line@ =~= clip_line(views(all@)[k as int]));
                        }
                        let ghost prev = self.lines@;
                        self.lines.push(line);
                        proof {
                            lemma_views_push(prev, self.lines@[prev.len() as int]);
                            assert(views(self.lines@) =~= clipped(views(all@)).subrange(
                                begin as int,
                                k + 1 as int,
                            ));
                        }
                        k = k + 1;
                    }
                    proof {
                        assert(views(self.lines@) == window_slice(
                            views(all@),
                            begin as int,
                            self.max_lines as int,
                        ));
                        assert forall|i: int| 0 <= i < self.lines@.len() implies (
                        #[trigger] self.lines@[i])@.len() <= MAX_LINE_LENGTH by {
                            assert(views(self.lines@)[i] == clipped(views(all@)).subrange(
                                begin as int,
                                end as int,
                            )[i]);
                            assert(views(self.lines@)[i] == clip_line(views(all@)[begin + i]));
                        }
                    }
                }
            },
        }
    }

    /// Whether a line may be inserted at `index`: within the window or
    /// immediately past it.
    pub fn is_insertable(&self, index: usize) -> (r: bool)
        ensures
            r == self.insertable(index as int),
    {
        index >= self.start_line_number && index - self.start_line_number <= self.lines.len()
    }

    /// Whether the document line `index` is resident.
    pub fn is_resident(&self, index: usize) -> (r: bool)
        ensures
            r == self.resident(index as int),
    {
        index >= self.start_line_number && index - self.start_line_number < self.lines.len()
    }

    /// The resident line `index`, or a miss.
    pub fn get_line(&self, index: usize) -> (r: Option<&Vec<u8>>)
        ensures
            match r {
                Some(l) => self.resident(index as int) && l@ == self.line_at(index as int),
                None => !self.resident(index as int),
            },
    {
        if index >= self.start_line_number && index - self.start_line_number < self.lines.len() {
            Some(&self.lines[index - self.start_line_number])
        } else {
            None
        }
    }

    /// Mutable access to the line `index`, or a miss.
    pub fn get_line_mut(&mut self, index: usize) -> (r: Option<&mut Vec<u8>>)
        ensures
            old(self).resident(index as int) <==> r is Some,
            match r {
                Some(line) => {
                    &&& *line == old(self).lines@[index - old(self).start_line_number]
                    &&& final(self).lines@ == old(self).lines@.update(
                        index - old(self).start_line_number,
                        *final(line),
                    )
                    &&& final(self).start_line_number == old(self).start_line_number
                    &&& final(self).total_lines == old(self).total_lines
                    &&& final(self).max_lines == old(self).max_lines
                },
                None => *final(self) == *old(self),
            },
    {
        if index >= self.start_line_number && index - self.start_line_number < self.lines.len() {
            let local = index - self.start_line_number;
            Some(&mut self.lines[local])
        } else {
            None
        }
    }

    /// Insert a line at a document index within or immediately past the
    /// window; elsewhere the call is a silent miss. The content is clipped;
    /// if the window would outgrow its capacity, its last line is evicted.
    pub fn insert_line(&mut self, index: usize, content: Vec<u8>)
        requires
            old(self).wf(),
            old(self).total_lines < usize::MAX,
        ensures
            final(self).wf(),
            final(self).max_lines == old(self).max_lines,
            final(self).start_line_number == old(self).start_line_number,
            if old(self).insertable(index as int) {
                let grown = old(self).window().insert(
                    index - old(self).start_line_number,
                    clip_line(content@),
                );
                &&& final(self).total_lines == old(self).total_lines + 1
                &&& final(self).window() == if grown.len() > old(self).max_lines {
                    grown.drop_last()
                } else {
                    grown
                }
            } else {
                &&& final(self).total_lines == old(self).total_lines
                &&& final(self).window() == old(self).window()
            },
    {
        if index >= self.start_line_number && index - self.start_line_number <= self.lines.len() {
            let local = index - self.start_line_number;
            let clipped_content: Vec<u8> = if content.len() > MAX_LINE_LENGTH {
                crate::text::copy_range(&content, 0, MAX_LINE_LENGTH)
            } else {
                content
            };
            proof {
                assert(clipped_content@ =~= clip_line(content@));
            }
            let ghost prev = self.lines@;
            self.lines.insert(local, clipped_content);
            proof {
                lemma_views_insert(prev, local as int, self.lines@[local as int]);
            }
            self.total_lines = self.total_lines + 1;
            if self.lines.len() > self.max_lines {
                let ghost grown = self.lines@;
                let _ = self.lines.pop();
                proof {
                    lemma_views_drop_last(grown);
                }
            }
        }
    }

    /// Remove and return a resident line; a miss removes nothing. The total
    /// line count never drops under one.
    pub fn remove_line(&mut self, index: usize) -> (r: Option<Vec<u8>>)
        requires
            old(self).wf(),
        ensures
            final(self).wf(),
            final(self).max_lines == old(self).max_lines,
            final(self).start_line_number == old(self).start_line_number,
            if old(self).resident(index as int) {
                &&& final(self).total_lines == if old(self).total_lines <= 1 {
                    1int
                } else {
                    old(self).total_lines - 1
                }
                &&& final(self).window() == old(self).window().remove(
                    index - old(self).start_line_number,
                )
                &&& r matches Some(l) && l@ == old(self).line_at(index as int)
            } else {
                &&& final(self).total_lines == old(self).total_lines
                &&& final(self).window() == old(self).window()
                &&& r is None
            },
    {
        if index >= self.start_line_number && index - self.start_line_number < self.lines.len() {
            let local = index - self.start_line_number;
            let ghost prev = self.lines@;
            let removed = self.lines.remove(local);
            proof {
                lemma_views_remove(prev, local as int);
            }
            self.total_lines = if self.total_lines <= 1 {
                1
            } else {
                self.total_lines - 1
            };
            Some(removed)
        } else {
            None
        }
    }
}

} // verus!
