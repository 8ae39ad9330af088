//! Splitting a byte stream into logical lines.
//!
//! A line runs up to the next line feed or to the end of the stream. Its
//! content excludes the line feed and, when the line is terminated by one, a
//! carriage return directly before it.

use vstd::prelude::*;
use vstd::slice::*;

verus! {

/// The byte that ends a line.
pub const LINE_FEED: u8 = 0x0a;

/// The byte that may stand before the line feed and is then no part of the line.
pub const CARRIAGE_RETURN: u8 = 0x0d;

/// Index of the first line feed at or after `from`, or `s.len()` when there is none.
pub open spec fn line_end(s: Seq<u8>, from: int) -> int
    decreases s.len() - from,
{
    if 0 <= from < s.len() && s[from] != LINE_FEED {
        line_end(s, from + 1)
    } else {
        from
    }
}

/// Where the line after the one starting at `from` begins.
pub open spec fn next_line(s: Seq<u8>, from: int) -> int {
    let end = line_end(s, from);
    if end < s.len() {
        end + 1
    } else {
        end
    }
}

/// Where the content of the line starting at `from` ends.
pub open spec fn content_end(s: Seq<u8>, from: int) -> int {
    let end = line_end(s, from);
    if from < end < s.len() && s[end - 1] == CARRIAGE_RETURN {
        end - 1
    } else {
        end
    }
}

/// The content of the line starting at `from`.
pub open spec fn line_content(s: Seq<u8>, from: int) -> Seq<u8> {
    s.subrange(from, content_end(s, from))
}

/// `line_end` is the first line feed at or after `from`, if there is one.
pub proof fn lemma_line_end(s: Seq<u8>, from: int)
    requires
        0 <= from <= s.len(),
    ensures
        from <= line_end(s, from) <= s.len(),
        line_end(s, from) < s.len() ==> s[line_end(s, from)] == LINE_FEED,
        forall|i: int| from <= i < line_end(s, from) ==> s[i] != LINE_FEED,
    decreases s.len() - from,
{
    if from < s.len() && s[from] != LINE_FEED {
        lemma_line_end(s, from + 1);
    }
}

/// A line that starts inside the stream ends after its start.
pub proof fn lemma_next_line_advances(s: Seq<u8>, from: int)
    requires
        0 <= from <= s.len(),
    ensures
        from <= content_end(s, from) <= line_end(s, from) <= next_line(s, from) <= s.len(),
        from < s.len() ==> from < next_line(s, from),
{
    lemma_line_end(s, from);
}

/// A line feed that no other line feed precedes is where the line ends.
pub proof fn lemma_line_end_is_first_feed(s: Seq<u8>, from: int, at: int)
    requires
        0 <= from <= at < s.len(),
        s[at] == LINE_FEED,
        forall|i: int| from <= i < at ==> s[i] != LINE_FEED,
    ensures
        line_end(s, from) == at,
    decreases at - from,
{
    if from < at {
        lemma_line_end_is_first_feed(s, from + 1, at);
    }
}

/// Finds the line that starts at `from`: where its content ends and where
/// the next line starts.
pub fn scan_line(input: &[u8], from: usize) -> (r: (usize, usize))
    requires
        from <= input@.len(),
    ensures
        r.0 == content_end(input@, from as int),
        r.1 == next_line(input@, from as int),
        from <= r.0 <= r.1 <= input@.len(),
        from < input@.len() ==> from < r.1,
{
    let mut end: usize = from;
    while end < input.len() && input[end] != LINE_FEED
        invariant
            from <= end <= input@.len(),
            line_end(input@, from as int) == line_end(input@, end as int),
        decreases input@.len() - end,
    {
        end += 1;
    }
    if end < input.len() {
        if from < end && input[end - 1] == CARRIAGE_RETURN {
            (end - 1, end + 1)
        } else {
            (end, end + 1)
        }
    } else {
        (end, end)
    }
}

/// Where the line after the one starting at `from` begins.
pub fn skip_line(input: &[u8], from: usize) -> (next: usize)
    requires
        from <= input@.len(),
    ensures
        next == next_line(input@, from as int),
        from <= next <= input@.len(),
{
    scan_line(input, from).1
}

/// A copy of `input[from..to]`.
pub fn copy_range(input: &[u8], from: usize, to: usize) -> (out: Vec<u8>)
    requires
        from <= to <= input@.len(),
    ensures
        out@ == input@.subrange(from as int, to as int),
{
    slice_to_vec(slice_subrange(input, from, to))
}

} // verus!
