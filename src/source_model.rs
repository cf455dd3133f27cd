use vstd::prelude::*;

use crate::levels::StatusLevel;

verus! {

/// A place in the buffer: `line` counts from 1, `col` from 0.
#[derive(Clone, Copy, Debug, PartialEq, Eq, Structural)]
pub struct SourcePosition {
    pub line: usize,
    pub col: usize,
}

/// A stretch of the buffer between two positions.
#[derive(Clone, Copy, Debug, PartialEq, Eq, Structural)]
pub struct SourceRange {
    pub start_pos: SourcePosition,
    pub end_pos: SourcePosition,
}

/// One captured diagnostic.
#[derive(Debug)]
pub struct SourceMessage {
    pub status_level: StatusLevel,
    pub sourcerange: Option<SourceRange>,
    pub message: String,
}

/// Number of line breaks among the first `n` characters of `s`.
pub open spec fn breaks_before(s: Seq<char>, n: int) -> nat
    decreases n,
{
    if n <= 0 || s.len() == 0 {
        0
    } else if n > s.len() {
        breaks_before(s, s.len() as int)
    } else if s[n - 1] == '\n' {
        breaks_before(s, n - 1) + 1
    } else {
        breaks_before(s, n - 1)
    }
}

/// Number of characters between the last line break before `n` and `n`.
pub open spec fn col_before(s: Seq<char>, n: int) -> nat
    decreases n,
{
    if n <= 0 || n > s.len() {
        0
    } else if s[n - 1] == '\n' {
        0
    } else {
        col_before(s, n - 1) + 1
    }
}

/// The position of the character at index `n` of `s`.
pub open spec fn position_at(s: Seq<char>, n: int) -> SourcePosition
    recommends
        0 <= n <= s.len(),
{
    SourcePosition { line: (breaks_before(s, n) + 1) as usize, col: col_before(s, n) as usize }
}

pub open spec fn pos_le(a: SourcePosition, b: SourcePosition) -> bool {
    a.line < b.line || (a.line == b.line && a.col <= b.col)
}

/// Number of lines of `s`: one more than its line breaks.
pub open spec fn line_count(s: Seq<char>) -> nat {
    breaks_before(s, s.len() as int) + 1
}

/// `p` names a place inside `s` (or just after its last character).
pub open spec fn pos_in(s: Seq<char>, p: SourcePosition) -> bool {
    exists|n: int| 0 <= n <= s.len() && #[trigger] position_at(s, n) == p
}

pub open spec fn range_in(s: Seq<char>, r: SourceRange) -> bool {
    pos_le(r.start_pos, r.end_pos) && pos_in(s, r.start_pos) && pos_in(s, r.end_pos)
}

pub open spec fn range_at(s: Seq<char>, lo: int, hi: int) -> SourceRange {
    SourceRange { start_pos: position_at(s, lo), end_pos: position_at(s, hi) }
}

proof fn lemma_breaks_bounded(s: Seq<char>, n: int)
    requires
        0 <= n <= s.len(),
    ensures
        breaks_before(s, n) <= n,
        col_before(s, n) <= n,
    decreases n,
{
    if n > 0 {
        lemma_breaks_bounded(s, n - 1);
    }
}

/// Positions grow with the index they are taken at.
pub proof fn lemma_position_monotonic(s: Seq<char>, a: int, b: int)
    requires
        0 <= a <= b <= s.len(),
        s.len() < usize::MAX,
    ensures
        pos_le(position_at(s, a), position_at(s, b)),
        breaks_before(s, a) <= breaks_before(s, b),
    decreases b - a,
{
    lemma_breaks_bounded(s, b);
    if a < b {
        lemma_position_monotonic(s, a, b - 1);
        lemma_breaks_bounded(s, b - 1);
        lemma_breaks_bounded(s, a);
        if s[b - 1] != '\n' && breaks_before(s, a) == breaks_before(s, b - 1) {
            lemma_same_line_cols(s, a, b - 1);
        }
    }
}

proof fn lemma_same_line_cols(s: Seq<char>, a: int, b: int)
    requires
        0 <= a <= b <= s.len(),
        breaks_before(s, a) == breaks_before(s, b),
        s.len() < usize::MAX,
    ensures
        col_before(s, b) == col_before(s, a) + (b - a),
    decreases b - a,
{
    if a < b {
        lemma_position_monotonic(s, a, b - 1);
        if s[b - 1] == '\n' {
            assert(breaks_before(s, b) == breaks_before(s, b - 1) + 1);
        } else {
            lemma_same_line_cols(s, a, b - 1);
        }
    }
}

/// The position of the character at index `n` of `text`, counted in one pass.
pub fn position_of(text: &Vec<char>, n: usize) -> (r: SourcePosition)
    requires
        n <= text@.len() < usize::MAX,
    ensures
        r == position_at(text@, n as int),
{
    let mut i: usize = 0;
    let mut line: usize = 1;
    let mut col: usize = 0;
    while i < n
        invariant
            i <= n <= text@.len() < usize::MAX,
            line == breaks_before(text@, i as int) + 1,
            col == col_before(text@, i as int),
        decreases n - i,
    {
        proof {
            lemma_breaks_bounded(text@, i as int);
        }
        if text[i] == '\n' {
            line = line + 1;
            col = 0;
        } else {
            col = col + 1;
        }
        i = i + 1;
    }
    SourcePosition { line, col }
}

impl SourceRange {
    /// The range between character indexes `lo` and `hi` of `text`.
    pub fn new(text: &Vec<char>, lo: usize, hi: usize) -> (r: SourceRange)
        requires
            lo <= hi <= text@.len() < usize::MAX,
        ensures
            r == range_at(text@, lo as int, hi as int),
            range_in(text@, r),
    {
        let start_pos = position_of(text, lo);
        let end_pos = position_of(text, hi);
        proof {
            lemma_range_in(text@, lo as int, hi as int);
        }
        SourceRange { start_pos, end_pos }
    }
}

/// A range taken between two indexes of the buffer starts no later than it
/// ends, and both of its ends lie within the buffer.
pub proof fn lemma_range_in(s: Seq<char>, lo: int, hi: int)
    requires
        0 <= lo <= hi <= s.len() < usize::MAX,
    ensures
        range_in(s, range_at(s, lo, hi)),
        1 <= range_at(s, lo, hi).end_pos.line <= line_count(s),
{
    lemma_position_monotonic(s, lo, hi);
    lemma_position_monotonic(s, hi, s.len() as int);
    lemma_breaks_bounded(s, hi);
    lemma_breaks_bounded(s, s.len() as int);
    assert(position_at(s, lo) == range_at(s, lo, hi).start_pos);
    assert(position_at(s, hi) == range_at(s, lo, hi).end_pos);
}

} // verus!
