//! Mapping of byte offsets in a text buffer to line and column.
//!
//! A buffer is modelled by the sequence of its UTF-8 bytes, and offsets and
//! columns count bytes. A line break is the byte `0x0A`; in UTF-8 that byte
//! never occurs inside the encoding of another character.

use vstd::prelude::*;
use vstd::string::StringSliceAdditionalSpecFns;

verus! {

/// The byte that ends a line.
pub const LINE_BREAK: u8 = 0x0A;

/// Whether offset `p` lies inside `text` and holds a line break.
pub open spec fn is_line_break_at(text: Seq<u8>, p: int) -> bool {
    0 <= p < text.len() && text[p] == LINE_BREAK
}

/// Number of line breaks at offsets strictly below `k`.
pub open spec fn line_breaks_before(text: Seq<u8>, k: int) -> nat
    decreases k,
{
    if k <= 0 {
        0
    } else if is_line_break_at(text, k - 1) {
        line_breaks_before(text, k - 1) + 1
    } else {
        line_breaks_before(text, k - 1)
    }
}

/// Offset at which the line that holds offset `k` starts: just behind the
/// last line break below `k`, or 0 where there is none.
pub open spec fn line_start(text: Seq<u8>, k: int) -> int
    decreases k,
{
    if k <= 0 {
        0
    } else if is_line_break_at(text, k - 1) {
        k
    } else {
        line_start(text, k - 1)
    }
}

/// Zero-based line and column of byte offset `pos` in `s`.
///
/// Offsets behind the end of the text count as further columns of the
/// last line.
pub fn get_position(s: &str, pos: usize) -> (r: (usize, usize))
    ensures
        r.0 == line_breaks_before(s.spec_bytes(), pos as int),
        r.1 == pos - line_start(s.spec_bytes(), pos as int),
{
    let bytes = s.as_bytes();
    let n: usize = bytes.len();
    let mut line: usize = 0;
    let mut col: usize = 0;
    let mut p: usize = 0;
    while p < pos
        invariant
            p <= pos,
            n == bytes@.len(),
            bytes@ == s.spec_bytes(),
            line == line_breaks_before(bytes@, p as int),
            col == p - line_start(bytes@, p as int),
            line + col <= p,
        decreases pos - p,
    {
        if p < n && bytes[p] == LINE_BREAK {
            line += 1;
            col = 0;
        } else {
            col += 1;
        }
        p += 1;
    }
    (line, col)
}

/// First offset from `k` on that holds a line break; the length of the
/// text where no line break follows, also for a `k` behind the end.
pub open spec fn line_end(text: Seq<u8>, k: int) -> int
    decreases text.len() - k,
{
    if k >= text.len() {
        text.len() as int
    } else if is_line_break_at(text, k) {
        k
    } else {
        line_end(text, k + 1)
    }
}

/// Offset at which the line that holds byte offset `pos` of `s` ends.
pub fn get_line_end(s: &str, pos: usize) -> (r: usize)
    ensures
        r == line_end(s.spec_bytes(), pos as int),
{
    let bytes = s.as_bytes();
    let n: usize = bytes.len();
    if pos >= n {
        return n;
    }
    let mut p: usize = pos;
    while p < n && bytes[p] != LINE_BREAK
        invariant
            pos <= p <= n,
            n == bytes@.len(),
            line_end(bytes@, p as int) == line_end(bytes@, pos as int),
        decreases n - p,
    {
        p += 1;
    }
    p
}

/// The offsets below `k` that hold a line break.
pub open spec fn line_breaks(text: Seq<u8>, k: int) -> Set<int> {
    Set::new(|p: int| 0 <= p < k && is_line_break_at(text, p))
}

/// The line of an offset is the number of line breaks strictly before it.
pub proof fn lemma_line_counts_breaks(text: Seq<u8>, k: int)
    ensures
        line_breaks(text, k).finite(),
        line_breaks(text, k).len() == line_breaks_before(text, k),
    decreases k,
{
    if k <= 0 {
        assert(line_breaks(text, k) =~= Set::<int>::empty());
    } else {
        lemma_line_counts_breaks(text, k - 1);
        if is_line_break_at(text, k - 1) {
            assert(line_breaks(text, k) =~= line_breaks(text, k - 1).insert(k - 1));
        } else {
            assert(line_breaks(text, k) =~= line_breaks(text, k - 1));
        }
    }
}

/// The line of an offset starts at 0 or just behind a line break, and holds
/// no line break between its start and the offset; so the column is the
/// distance to the last line break before the offset.
pub proof fn lemma_line_start(text: Seq<u8>, k: int)
    requires
        0 <= k,
    ensures
        0 <= line_start(text, k) <= k,
        line_start(text, k) == 0 || is_line_break_at(text, line_start(text, k) - 1),
        forall|p: int| line_start(text, k) <= p < k ==> !is_line_break_at(text, p),
    decreases k,
{
    if k > 0 && !is_line_break_at(text, k - 1) {
        lemma_line_start(text, k - 1);
    }
}

/// The end of a line is the smallest offset from `k` on that holds a line
/// break; without one it is the length of the text.
pub proof fn lemma_line_end(text: Seq<u8>, k: int)
    requires
        0 <= k,
    ensures
        k <= text.len() ==> k <= line_end(text, k),
        line_end(text, k) <= text.len(),
        forall|p: int| k <= p < line_end(text, k) ==> !is_line_break_at(text, p),
        is_line_break_at(text, line_end(text, k)) || line_end(text, k) == text.len(),
    decreases text.len() - k,
{
    if !(k >= text.len() || is_line_break_at(text, k)) {
        lemma_line_end(text, k + 1);
    }
}

/// From the last character of a line, the end of the line is the next
/// offset: that of the following line break, or the length of the text on
/// the last line.
pub proof fn lemma_line_end_after_last_char(text: Seq<u8>, k: int)
    requires
        0 <= k < text.len(),
        !is_line_break_at(text, k),
        k + 1 == text.len() || is_line_break_at(text, k + 1),
    ensures
        line_end(text, k) == k + 1,
{
    assert(line_end(text, k) == line_end(text, k + 1));
}

} // verus!
