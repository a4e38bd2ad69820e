//! The line index: for each line of a text, the character offset at which it
//! starts. It is the bridge between flat character offsets and line/column
//! coordinates, rebuilt from scratch after every mutation of the buffer.

use vstd::prelude::*;

verus! {

/// Line starts contributed by the first `n` characters of `s`: offset 0, and
/// the offset after every newline among those characters that is not the last
/// character of the whole text (a trailing terminator opens no further line).
pub open spec fn line_starts_upto(s: Seq<char>, n: int) -> Seq<int>
    decreases n,
{
    if n <= 0 {
        seq![0]
    } else if s[n - 1] == '\n' && n < s.len() {
        line_starts_upto(s, n - 1).push(n)
    } else {
        line_starts_upto(s, n - 1)
    }
}

/// The offsets at which the lines of `s` start. `line_starts_of(s)[i]` is the
/// offset of the first character of line `i`; line 0 always starts at 0, even
/// in an empty text.
pub open spec fn line_starts_of(s: Seq<char>) -> Seq<int> {
    line_starts_upto(s, s.len() as int)
}

/// What every line index satisfies: non-empty, anchored at offset 0, and
/// strictly increasing.
pub open spec fn wf_line_starts(starts: Seq<int>) -> bool {
    &&& starts.len() >= 1
    &&& starts[0] == 0
    &&& forall|i: int, j: int| 0 <= i < j < starts.len() ==> starts[i] < starts[j]
}

/// A sequence of machine offsets, read as mathematical integers.
pub open spec fn view_starts(v: Seq<usize>) -> Seq<int> {
    v.map_values(|x: usize| x as int)
}

pub proof fn lemma_line_starts_upto_wf(s: Seq<char>, n: int)
    ensures
        wf_line_starts(line_starts_upto(s, n)),
        forall|k: int|
            0 <= k < line_starts_upto(s, n).len() ==> #[trigger] line_starts_upto(s, n)[k]
                <= (if n >= 0 { n } else { 0 }),
    decreases n,
{
    if n <= 0 {
    } else {
        lemma_line_starts_upto_wf(s, n - 1);
    }
}

/// The line index of a text is well formed, and every start lies within the
/// text (or at 0 for an empty text).
pub proof fn lemma_line_starts_of_wf(s: Seq<char>)
    ensures
        wf_line_starts(line_starts_of(s)),
        forall|k: int|
            0 <= k < line_starts_of(s).len() ==> #[trigger] line_starts_of(s)[k] <= s.len(),
{
    lemma_line_starts_upto_wf(s, s.len() as int);
}

/// The greatest line whose start is at or before `off`; line 0 when `off`
/// precedes every recorded start.
pub open spec fn spec_line_of(starts: Seq<int>, off: int) -> int
    decreases starts.len(),
{
    if starts.len() <= 1 {
        0
    } else if starts[starts.len() - 1] <= off {
        starts.len() - 1
    } else {
        spec_line_of(starts.drop_last(), off)
    }
}

pub proof fn lemma_spec_line_of_bounds(starts: Seq<int>, off: int)
    requires
        wf_line_starts(starts),
        0 <= off,
    ensures
        0 <= spec_line_of(starts, off) < starts.len(),
        starts[spec_line_of(starts, off)] <= off,
        spec_line_of(starts, off) < starts.len() - 1 ==> off < starts[spec_line_of(starts, off)
            + 1],
    decreases starts.len(),
{
    if starts.len() <= 1 {
    } else if starts[starts.len() - 1] <= off {
    } else {
        let dropped = starts.drop_last();
        assert(wf_line_starts(dropped));
        lemma_spec_line_of_bounds(dropped, off);
        assert(dropped[spec_line_of(dropped, off)] == starts[spec_line_of(starts, off)]);
    }
}

/// Any index that starts at or before `off` and whose successor (if any)
/// starts after `off` is the line of `off`.
pub proof fn lemma_spec_line_of_unique(starts: Seq<int>, off: int, r: int)
    requires
        wf_line_starts(starts),
        0 <= r < starts.len(),
        starts[r] <= off,
        r == starts.len() - 1 || off < starts[r + 1],
    ensures
        r == spec_line_of(starts, off),
    decreases starts.len(),
{
    if starts.len() <= 1 {
    } else if starts[starts.len() - 1] <= off {
        if r < starts.len() - 1 {
            assert(starts[r + 1] <= starts[starts.len() - 1]);
        }
    } else {
        let dropped = starts.drop_last();
        assert(wf_line_starts(dropped));
        assert(r < starts.len() - 1);
        lemma_spec_line_of_unique(dropped, off, r);
    }
}

/// Builds the line index of a text given as its character sequence.
pub fn compute_line_starts(text: &Vec<char>) -> (starts: Vec<usize>)
    ensures
        view_starts(starts@) == line_starts_of(text@),
{
    let n = text.len();
    let mut starts: Vec<usize> = Vec::new();
    starts.push(0);
    assert(view_starts(starts@) =~= line_starts_upto(text@, 0));
    let mut i: usize = 0;
    while i < n
        invariant
            n == text@.len(),
            i <= n,
            view_starts(starts@) == line_starts_upto(text@, i as int),
        decreases n - i,
    {
        if text[i] == '\n' && i + 1 < n {
            starts.push(i + 1);
            assert(view_starts(starts@) =~= line_starts_upto(text@, i as int).push(i + 1));
        }
        assert(view_starts(starts@) =~= line_starts_upto(text@, i + 1));
        i = i + 1;
    }
    starts
}

/// Binary search for the greatest line whose start is at or before `offset`.
pub fn offset_to_line(starts: &Vec<usize>, offset: usize) -> (line: usize)
    requires
        wf_line_starts(view_starts(starts@)),
    ensures
        line < starts@.len(),
        line as int == spec_line_of(view_starts(starts@), offset as int),
{
    let ghost gstarts = view_starts(starts@);
    let mut lo: usize = 0;
    let mut hi: usize = starts.len() - 1;
    while lo < hi
        invariant
            wf_line_starts(gstarts),
            gstarts == view_starts(starts@),
            lo <= hi < starts@.len(),
            starts@[lo as int] <= offset,
            hi == starts@.len() - 1 || offset < starts@[hi + 1],
        decreases hi - lo,
    {
        let mid = hi - (hi - lo) / 2;
        if starts[mid] <= offset {
            lo = mid;
        } else {
            hi = mid - 1;
        }
    }
    proof {
        lemma_spec_line_of_unique(gstarts, offset as int, lo as int);
    }
    lo
}

/// The offset of the character at (`line`, `character`): the line's start
/// plus the column.
pub open spec fn spec_position_to_offset(starts: Seq<int>, line: int, character: int) -> int {
    starts[line] + character
}

/// Law: converting a valid offset to (line, column) coordinates through the
/// line index and back again yields the same offset.
pub proof fn lemma_line_index_round_trip(starts: Seq<int>, o: int)
    requires
        wf_line_starts(starts),
        0 <= o,
    ensures
        spec_position_to_offset(
            starts,
            spec_line_of(starts, o),
            o - starts[spec_line_of(starts, o)],
        ) == o,
{
    lemma_spec_line_of_bounds(starts, o);
}

} // verus!
