//! Byte-level text helpers: splitting content into lines, joining lines back
//! into content, and substring search and replacement inside a single line.
//!
//! Line content is held as `Vec<u8>`; a column is a byte offset.

use vstd::prelude::*;

verus! {

/// Byte value of the line separator.
pub const NL: u8 = 10;

/// Byte value of a carriage return; one standing immediately before a line
/// separator is dropped when content is split into lines.
pub const CR: u8 = 13;

/// Index of the first occurrence of `b` in `s` at or after `from`; `s.len()` if none.
pub open spec fn find_byte(s: Seq<u8>, b: u8, from: int) -> int
    recommends
        0 <= from <= s.len(),
    decreases s.len() - from,
{
    if from < 0 || from >= s.len() {
        s.len() as int
    } else if s[from] == b {
        from
    } else {
        find_byte(s, b, from + 1)
    }
}

pub proof fn lemma_find_byte(s: Seq<u8>, b: u8, from: int)
    requires
        0 <= from <= s.len(),
    ensures
        from <= find_byte(s, b, from) <= s.len(),
        find_byte(s, b, from) < s.len() ==> s[find_byte(s, b, from)] == b,
        forall|j: int| from <= j < find_byte(s, b, from) ==> s[j] != b,
    decreases s.len() - from,
{
    if from < s.len() && s[from] != b {
        lemma_find_byte(s, b, from + 1);
    }
}

/// A line with a trailing carriage return dropped.
pub open spec fn strip_cr(s: Seq<u8>) -> Seq<u8> {
    if s.len() > 0 && s[s.len() - 1] == CR {
        s.drop_last()
    } else {
        s
    }
}

/// The lines of `s` from position `pos` on. Lines are separated by `NL`; a
/// separator at the very end does not open a further empty line; a `CR` at the
/// end of a separator-terminated line is dropped.
pub open spec fn split_from(s: Seq<u8>, pos: int) -> Seq<Seq<u8>>
    recommends
        0 <= pos <= s.len(),
    decreases s.len() - pos,
        via split_from_dec
{
    if pos < 0 || pos >= s.len() {
        Seq::empty()
    } else {
        let i = find_byte(s, NL, pos);
        if i >= s.len() {
            seq![s.subrange(pos, s.len() as int)]
        } else {
            seq![strip_cr(s.subrange(pos, i))] + split_from(s, i + 1)
        }
    }
}

#[via_fn]
proof fn split_from_dec(s: Seq<u8>, pos: int) {
    if 0 <= pos < s.len() {
        lemma_find_byte(s, NL, pos);
    }
}

/// The lines of `s`, as the loader sees them: an empty store has no lines.
pub open spec fn split_lines(s: Seq<u8>) -> Seq<Seq<u8>> {
    split_from(s, 0)
}

/// Lines joined with a single separator between them and none at the end.
pub open spec fn join_lines(ls: Seq<Seq<u8>>) -> Seq<u8>
    decreases ls.len(),
{
    if ls.len() == 0 {
        Seq::empty()
    } else if ls.len() == 1 {
        ls[0]
    } else {
        ls[0] + seq![NL] + join_lines(ls.drop_first())
    }
}

/// No carriage return stands immediately before a line separator.
pub open spec fn no_cr_before_nl(s: Seq<u8>) -> bool {
    forall|i: int| 1 <= i < s.len() && #[trigger] s[i] == NL ==> s[i - 1] != CR
}

proof fn lemma_split_join_from(s: Seq<u8>, pos: int)
    requires
        0 <= pos <= s.len(),
        pos < s.len() ==> s[s.len() - 1] != NL,
        no_cr_before_nl(s),
    ensures
        join_lines(split_from(s, pos)) == s.subrange(pos, s.len() as int),
    decreases s.len() - pos,
{
    if pos >= s.len() {
        assert(join_lines(split_from(s, pos)) =~= s.subrange(pos, s.len() as int));
    } else {
        let i = find_byte(s, NL, pos);
        lemma_find_byte(s, NL, pos);
        if i >= s.len() {
            assert(join_lines(split_from(s, pos)) == s.subrange(pos, s.len() as int));
        } else {
            assert(s[i] == NL);
            assert(i < s.len() - 1);
            let head = strip_cr(s.subrange(pos, i));
            if i > pos {
                assert(s.subrange(pos, i)[i - pos - 1] == s[i - 1]);
                assert(s[i - 1] != CR);
            }
            assert(head =~= s.subrange(pos, i));
            lemma_split_join_from(s, i + 1);
            let rest = split_from(s, i + 1);
            assert(rest.len() >= 1);
            let ls = seq![head] + rest;
            assert(split_from(s, pos) == ls);
            assert(ls.len() >= 2);
            assert(ls[0] == head);
            assert(ls.drop_first() =~= rest);
            assert(join_lines(ls) == head + seq![NL] + join_lines(rest));
            assert(head + seq![NL] + s.subrange(i + 1, s.len() as int) =~= s.subrange(
                pos,
                s.len() as int,
            ));
        }
    }
}

/// Law: splitting content into lines and joining the lines back reproduces the
/// content, provided no separator ends the content and no carriage return
/// stands before a separator.
pub proof fn lemma_lines_round_trip(s: Seq<u8>)
    requires
        s.len() == 0 || s[s.len() - 1] != NL,
        no_cr_before_nl(s),
    ensures
        join_lines(split_lines(s)) == s,
{
    lemma_split_join_from(s, 0);
    assert(s.subrange(0, s.len() as int) =~= s);
}

/// The pattern occurs in `s` at position `i`.
pub open spec fn match_at(s: Seq<u8>, pat: Seq<u8>, i: int) -> bool {
    0 <= i && i + pat.len() <= s.len() && s.subrange(i, i + pat.len()) == pat
}

/// Position of the first occurrence of `pat` in `s` at or after `from`;
/// `s.len()` if none.
pub open spec fn find_match(s: Seq<u8>, pat: Seq<u8>, from: int) -> int
    recommends
        1 <= pat.len(),
        0 <= from,
    decreases s.len() - from,
{
    if pat.len() == 0 || from < 0 || from > s.len() - pat.len() {
        s.len() as int
    } else if match_at(s, pat, from) {
        from
    } else {
        find_match(s, pat, from + 1)
    }
}

pub proof fn lemma_find_match(s: Seq<u8>, pat: Seq<u8>, from: int)
    requires
        1 <= pat.len(),
        0 <= from <= s.len(),
    ensures
        from <= find_match(s, pat, from) <= s.len(),
        find_match(s, pat, from) < s.len() ==> match_at(s, pat, find_match(s, pat, from)),
        forall|j: int| from <= j < find_match(s, pat, from) ==> !(#[trigger] match_at(s, pat, j)),
    decreases s.len() - from,
{
    if from <= s.len() - pat.len() && !match_at(s, pat, from) {
        lemma_find_match(s, pat, from + 1);
    }
}

/// `s` from position `pos` on, with every occurrence of `pat` replaced by
/// `rep`, scanning left to right without overlap.
pub open spec fn replace_from(s: Seq<u8>, pat: Seq<u8>, rep: Seq<u8>, pos: int) -> Seq<u8>
    recommends
        1 <= pat.len(),
        0 <= pos <= s.len(),
    decreases s.len() - pos,
        via replace_from_dec
{
    if pat.len() == 0 || pos < 0 || pos > s.len() {
        Seq::empty()
    } else {
        let i = find_match(s, pat, pos);
        if i >= s.len() {
            s.subrange(pos, s.len() as int)
        } else {
            s.subrange(pos, i) + rep + replace_from(s, pat, rep, i + pat.len())
        }
    }
}

#[via_fn]
proof fn replace_from_dec(s: Seq<u8>, pat: Seq<u8>, rep: Seq<u8>, pos: int) {
    if pat.len() > 0 && 0 <= pos <= s.len() {
        lemma_find_match(s, pat, pos);
    }
}

/// How many occurrences of `pat` stand in `s` from `pos` on, counted left to
/// right without overlap.
pub open spec fn count_from(s: Seq<u8>, pat: Seq<u8>, pos: int) -> int
    recommends
        1 <= pat.len(),
        0 <= pos <= s.len(),
    decreases s.len() - pos,
        via count_from_dec
{
    if pat.len() == 0 || pos < 0 || pos > s.len() {
        0
    } else {
        let i = find_match(s, pat, pos);
        if i >= s.len() {
            0
        } else {
            1 + count_from(s, pat, i + pat.len())
        }
    }
}

#[via_fn]
proof fn count_from_dec(s: Seq<u8>, pat: Seq<u8>, pos: int) {
    if pat.len() > 0 && 0 <= pos <= s.len() {
        lemma_find_match(s, pat, pos);
    }
}

/// `s` with every occurrence of `pat` replaced by `rep`.
pub open spec fn replace_all(s: Seq<u8>, pat: Seq<u8>, rep: Seq<u8>) -> Seq<u8> {
    replace_from(s, pat, rep, 0)
}

/// How many occurrences of `pat` stand in `s`, without overlap.
pub open spec fn count_matches(s: Seq<u8>, pat: Seq<u8>) -> int {
    count_from(s, pat, 0)
}

/// A line clipped to the maximum length.
pub open spec fn clip_line(l: Seq<u8>) -> Seq<u8> {
    if l.len() <= crate::MAX_LINE_LENGTH {
        l
    } else {
        l.take(crate::MAX_LINE_LENGTH as int)
    }
}

/// Every line clipped to the maximum length.
pub open spec fn clipped(all: Seq<Seq<u8>>) -> Seq<Seq<u8>> {
    Seq::new(all.len(), |i: int| clip_line(all[i]))
}

/// The views of a sequence of byte vectors.
pub open spec fn views(lines: Seq<Vec<u8>>) -> Seq<Seq<u8>> {
    Seq::new(lines.len(), |i: int| lines[i]@)
}

pub proof fn lemma_views_push(lines: Seq<Vec<u8>>, x: Vec<u8>)
    ensures
        views(lines.push(x)) == views(lines).push(x@),
{
    assert(views(lines.push(x)) =~= views(lines).push(x@));
}

pub proof fn lemma_views_update(lines: Seq<Vec<u8>>, k: int, x: Vec<u8>)
    requires
        0 <= k < lines.len(),
    ensures
        views(lines.update(k, x)) == views(lines).update(k, x@),
{
    assert(views(lines.update(k, x)) =~= views(lines).update(k, x@));
}

pub proof fn lemma_views_insert(lines: Seq<Vec<u8>>, k: int, x: Vec<u8>)
    requires
        0 <= k <= lines.len(),
    ensures
        views(lines.insert(k, x)) == views(lines).insert(k, x@),
{
    assert(views(lines.insert(k, x)) =~= views(lines).insert(k, x@));
}

pub proof fn lemma_views_remove(lines: Seq<Vec<u8>>, k: int)
    requires
        0 <= k < lines.len(),
    ensures
        views(lines.remove(k)) == views(lines).remove(k),
{
    assert(views(lines.remove(k)) =~= views(lines).remove(k));
}

pub proof fn lemma_views_drop_last(lines: Seq<Vec<u8>>)
    requires
        lines.len() > 0,
    ensures
        views(lines.drop_last()) == views(lines).drop_last(),
{
    assert(views(lines.drop_last()) =~= views(lines).drop_last());
}

/// A fresh copy of `v[lo..hi]`.
pub fn copy_range(v: &Vec<u8>, lo: usize, hi: usize) -> (out: Vec<u8>)
    requires
        lo <= hi <= v.len(),
    ensures
        out@ == v@.subrange(lo as int, hi as int),
{
    let mut out: Vec<u8> = Vec::new();
    let mut i: usize = lo;
    while i < hi
        invariant
            lo <= i <= hi <= v.len(),
            out@ == v@.subrange(lo as int, i as int),
        decreases hi - i,
    {
        out.push(v[i]);
        proof {
            assert(v@.subrange(lo as int, i + 1 as int) =~= v@.subrange(lo as int, i as int).push(
                v@[i as int],
            ));
        }
        i = i + 1;
    }
    out
}

/// Split content into its lines, as `split_lines` describes.
pub fn split_content(v: &Vec<u8>) -> (out: Vec<Vec<u8>>)
    ensures
        views(out@) == split_lines(v@),
{
    let mut out: Vec<Vec<u8>> = Vec::new();
    let mut pos: usize = 0;
    while pos < v.len()
        invariant
            pos <= v.len(),
            split_lines(v@) == views(out@) + split_from(v@, pos as int),
        decreases v.len() - pos,
    {
        let mut i: usize = pos;
        while i < v.len() && v[i] != NL
            invariant
                pos <= i <= v.len(),
                forall|j: int| pos <= j < i ==> v@[j] != NL,
            decreases v.len() - i,
        {
            i = i + 1;
        }
        proof {
            lemma_find_byte(v@, NL, pos as int);
            assert(find_byte(v@, NL, pos as int) == i as int);
        }
        let ghost prev = out@;
        let mut line: Vec<u8> = copy_range(v, pos, i);
        if i < v.len() {
            if line.len() > 0 && line[line.len() - 1] == CR {
                line.pop();
            }
            proof {
                assert(line@ =~= strip_cr(v@.subrange(pos as int, i as int)));
            }
            out.push(line);
            proof {
                lemma_views_push(prev, out@[prev.len() as int]);
                assert(views(out@) =~= views(prev).push(strip_cr(
                    v@.subrange(pos as int, i as int),
                )));
                assert(split_from(v@, pos as int) == seq![
                    strip_cr(v@.subrange(pos as int, i as int)),
                ] + split_from(v@, i + 1 as int));
                assert(views(prev) + split_from(v@, pos as int) =~= views(out@) + split_from(
                    v@,
                    i + 1 as int,
                ));
            }
            pos = i + 1;
        } else {
            out.push(line);
            proof {
                lemma_views_push(prev, out@[prev.len() as int]);
                assert(split_from(v@, pos as int) == seq![
                    v@.subrange(pos as int, v@.len() as int),
                ]);
                assert(views(prev) + split_from(v@, pos as int) =~= views(out@) + split_from(
                    v@,
                    v@.len() as int,
                ));
            }
            pos = i;
        }
    }
    proof {
        assert(split_from(v@, pos as int) =~= Seq::<Seq<u8>>::empty());
        assert(views(out@) + split_from(v@, pos as int) =~= views(out@));
    }
    out
}

pub proof fn lemma_join_snoc(ls: Seq<Seq<u8>>, x: Seq<u8>)
    ensures
        join_lines(ls.push(x)) == if ls.len() == 0 {
            x
        } else {
            join_lines(ls) + seq![NL] + x
        },
    decreases ls.len(),
{
    let p = ls.push(x);
    if ls.len() == 0 {
        assert(p.len() == 1);
        assert(join_lines(p) == p[0]);
        assert(p[0] == x);
    } else if ls.len() == 1 {
        assert(p.len() == 2);
        assert(p.drop_first() =~= seq![x]);
        assert(join_lines(p.drop_first()) == x);
        assert(join_lines(p) == p[0] + seq![NL] + x);
        assert(p[0] == ls[0]);
        assert(join_lines(ls) == ls[0]);
    } else {
        assert(p.drop_first() =~= ls.drop_first().push(x));
        lemma_join_snoc(ls.drop_first(), x);
        assert(join_lines(p) == p[0] + seq![NL] + (join_lines(ls.drop_first()) + seq![NL] + x));
        assert(p[0] == ls[0]);
        assert(join_lines(ls) == ls[0] + seq![NL] + join_lines(ls.drop_first()));
        assert(ls[0] + seq![NL] + (join_lines(ls.drop_first()) + seq![NL] + x) =~= (ls[0] + seq![NL]
            + join_lines(ls.drop_first())) + seq![NL] + x);
    }
}

/// Join lines with a separator between them and none at the end, as
/// `join_lines` describes.
pub fn join_window(lines: &Vec<Vec<u8>>) -> (out: Vec<u8>)
    ensures
        out@ == join_lines(views(lines@)),
{
    let mut out: Vec<u8> = Vec::new();
    let mut k: usize = 0;
    while k < lines.len()
        invariant
            k <= lines@.len(),
            out@ == join_lines(views(lines@).take(k as int)),
        decreases lines@.len() - k,
    {
        let ghost before = out@;
        if k > 0 {
            out.push(NL);
        }
        let mut piece = copy_range(&lines[k], 0, lines[k].len());
        proof {
            assert(piece@ =~= lines@[k as int]@);
        }
        out.append(&mut piece);
        proof {
            lemma_join_snoc(views(lines@).take(k as int), views(lines@)[k as int]);
            assert(views(lines@).take(k + 1 as int) =~= views(lines@).take(k as int).push(
                views(lines@)[k as int],
            ));
            if k > 0 {
                assert(out@ =~= join_lines(views(lines@).take(k as int)) + seq![NL] + views(
                    lines@,
                )[k as int]);
            } else {
                assert(out@ =~= views(lines@)[0]);
            }
        }
        k = k + 1;
    }
    proof {
        assert(views(lines@).take(lines@.len() as int) =~= views(lines@));
    }
    out
}

/// An ASCII space or tab.
pub open spec fn is_blank(b: u8) -> bool {
    b == 32 || b == 9
}

/// Index of the first non-blank byte at or after `from`; `s.len()` if none.
pub open spec fn skip_blanks(s: Seq<u8>, from: int) -> int
    recommends
        0 <= from <= s.len(),
    decreases s.len() - from,
{
    if from < 0 || from >= s.len() {
        s.len() as int
    } else if is_blank(s[from]) {
        skip_blanks(s, from + 1)
    } else {
        from
    }
}

/// End of the last non-blank byte strictly before `until`; 0 if none.
pub open spec fn rskip_blanks(s: Seq<u8>, until: int) -> int
    recommends
        0 <= until <= s.len(),
    decreases until,
{
    if until <= 0 {
        0
    } else if until > s.len() {
        s.len() as int
    } else if is_blank(s[until - 1]) {
        rskip_blanks(s, until - 1)
    } else {
        until
    }
}

proof fn lemma_rskip_le(s: Seq<u8>, until: int)
    requires
        0 <= until <= s.len(),
    ensures
        0 <= rskip_blanks(s, until) <= until,
    decreases until,
{
    if until > 0 && is_blank(s[until - 1]) {
        lemma_rskip_le(s, until - 1);
    }
}

/// `s` without its leading and trailing blanks.
pub open spec fn trimmed(s: Seq<u8>) -> Seq<u8> {
    let lo = skip_blanks(s, 0);
    let hi = rskip_blanks(s, s.len() as int);
    if lo <= hi {
        s.subrange(lo, hi)
    } else {
        Seq::empty()
    }
}

/// A copy of `v` without its leading and trailing blanks.
pub fn trim_blanks(v: &Vec<u8>) -> (out: Vec<u8>)
    ensures
        out@ == trimmed(v@),
{
    let n: usize = v.len();
    let mut lo: usize = 0;
    while lo < n && (v[lo] == 32 || v[lo] == 9)
        invariant
            lo <= n,
            n == v@.len(),
            skip_blanks(v@, 0) == skip_blanks(v@, lo as int),
        decreases n - lo,
    {
        lo = lo + 1;
    }
    proof {
        assert(skip_blanks(v@, 0) == lo as int);
    }
    let mut hi: usize = n;
    while hi > lo && (v[hi - 1] == 32 || v[hi - 1] == 9)
        invariant
            lo <= hi <= n,
            n == v@.len(),
            skip_blanks(v@, 0) == lo as int,
            rskip_blanks(v@, n as int) == rskip_blanks(v@, hi as int),
            lo < n ==> !is_blank(v@[lo as int]),
            lo < n ==> hi > lo,
        decreases hi,
    {
        hi = hi - 1;
    }
    let out = copy_range(v, lo, hi);
    proof {
        if lo == n {
            lemma_rskip_le(v@, n as int);
            assert(rskip_blanks(v@, n as int) <= n as int);
            assert(out@ =~= trimmed(v@));
        } else {
            assert(hi > lo);
            assert(!is_blank(v@[hi - 1]));
            assert(rskip_blanks(v@, hi as int) == hi as int);
            assert(out@ =~= trimmed(v@));
        }
    }
    out
}

/// Whether two byte vectors hold the same bytes.
pub fn bytes_eq(a: &Vec<u8>, b: &Vec<u8>) -> (r: bool)
    ensures
        r == (a@ == b@),
{
    if a.len() != b.len() {
        return false;
    }
    let n: usize = a.len();
    let mut k: usize = 0;
    while k < n
        invariant
            n == a@.len() == b@.len(),
            k <= n,
            forall|j: int| 0 <= j < k ==> a@[j] == b@[j],
        decreases n - k,
    {
        if a[k] != b[k] {
            return false;
        }
        k = k + 1;
    }
    proof {
        assert(a@ =~= b@);
    }
    true
}

/// Whether `pat` occurs in `line` at position `i`.
pub fn eq_at(line: &Vec<u8>, pat: &Vec<u8>, i: usize) -> (r: bool)
    requires
        i + pat.len() <= line.len(),
    ensures
        r == match_at(line@, pat@, i as int),
{
    let nl: usize = line.len();
    let np: usize = pat.len();
    let mut k: usize = 0;
    while k < np
        invariant
            np == pat@.len(),
            nl == line@.len(),
            i + np <= nl,
            k <= np,
            forall|j: int| 0 <= j < k ==> line@[i + j] == pat@[j],
        decreases np - k,
    {
        if line[i + k] != pat[k] {
            proof {
                assert(line@.subrange(i as int, i + pat@.len())[k as int] == line@[i + k]);
            }
            return false;
        }
        k = k + 1;
    }
    proof {
        assert(line@.subrange(i as int, i + pat@.len()) =~= pat@);
    }
    true
}

/// Position of the first occurrence of `pat` in `line` at or after `from`.
pub fn find_in_line(line: &Vec<u8>, pat: &Vec<u8>, from: usize) -> (r: Option<usize>)
    requires
        pat.len() >= 1,
    ensures
        match r {
            Some(p) => p as int == find_match(line@, pat@, from as int) && (p as int) < line@.len(),
            None => find_match(line@, pat@, from as int) == line@.len(),
        },
{
    if line.len() < pat.len() {
        return None;
    }
    let mut p: usize = from;
    while p <= line.len() - pat.len()
        invariant
            1 <= pat@.len() <= line@.len(),
            from <= p,
            find_match(line@, pat@, from as int) == find_match(line@, pat@, p as int),
        decreases line.len() - p,
    {
        if eq_at(line, pat, p) {
            return Some(p);
        }
        proof {
            assert(find_match(line@, pat@, p as int) == find_match(line@, pat@, p + 1 as int));
        }
        p = p + 1;
    }
    None
}

/// A copy of `line` with every occurrence of `pat` replaced by `rep`, paired
/// with how many occurrences the original line held.
pub fn replace_count_line(line: &Vec<u8>, pat: &Vec<u8>, rep: &Vec<u8>) -> (r: (Vec<u8>, usize))
    requires
        pat.len() >= 1,
    ensures
        r.0@ == replace_all(line@, pat@, rep@),
        r.1 as int == count_matches(line@, pat@),
        r.1 <= line@.len(),
{
    let mut out: Vec<u8> = Vec::new();
    let mut cnt: usize = 0;
    let mut pos: usize = 0;
    loop
        invariant_except_break
            replace_all(line@, pat@, rep@) == out@ + replace_from(line@, pat@, rep@, pos as int),
            count_matches(line@, pat@) == cnt + count_from(line@, pat@, pos as int),
        invariant
            1 <= pat@.len(),
            pos <= line@.len(),
            cnt <= pos,
        ensures
            out@ == replace_all(line@, pat@, rep@),
            cnt as int == count_matches(line@, pat@),
            cnt <= line@.len(),
        decreases line@.len() - pos,
    {
        match find_in_line(line, pat, pos) {
            None => {
                let mut rest = copy_range(line, pos, line.len());
                out.append(&mut rest);
                proof {
                    assert(replace_from(line@, pat@, rep@, pos as int) == line@.subrange(
                        pos as int,
                        line@.len() as int,
                    ));
                    assert(count_from(line@, pat@, pos as int) == 0);
                }
                break ;
            },
            Some(i) => {
                proof {
                    lemma_find_match(line@, pat@, pos as int);
                    assert(match_at(line@, pat@, i as int));
                    assert(replace_from(line@, pat@, rep@, pos as int) == line@.subrange(
                        pos as int,
                        i as int,
                    ) + rep@ + replace_from(line@, pat@, rep@, i + pat@.len()));
                    assert(count_from(line@, pat@, pos as int) == 1 + count_from(
                        line@,
                        pat@,
                        i + pat@.len(),
                    ));
                }
                let ghost prev = out@;
                let mut mid = copy_range(line, pos, i);
                out.append(&mut mid);
                let mut repc = copy_range(rep, 0, rep.len());
                proof {
                    assert(repc@ =~= rep@);
                }
                out.append(&mut repc);
                proof {
                    assert(out@ =~= prev + (line@.subrange(pos as int, i as int) + rep@));
                    assert(prev + (line@.subrange(pos as int, i as int) + rep@) + replace_from(
                        line@,
                        pat@,
                        rep@,
                        i + pat@.len(),
                    ) =~= prev + (line@.subrange(pos as int, i as int) + rep@ + replace_from(
                        line@,
                        pat@,
                        rep@,
                        i + pat@.len(),
                    )));
                }
                cnt = cnt + 1;
                pos = i + pat.len();
            },
        }
    }
    (out, cnt)
}

} // verus!
