//! Line counting: on which line a position of the buffer lies.

use vstd::prelude::*;

verus! {

/// The number of line feeds in `s`.
pub open spec fn newlines(s: Seq<u8>) -> nat
    decreases s.len(),
{
    if s.len() == 0 {
        0
    } else {
        newlines(s.drop_last()) + if s.last() == '\n' as u8 {
            1nat
        } else {
            0nat
        }
    }
}

/// The line, counted from 1, that the scanner is on when it has read the
/// first `pos` bytes of `content`.
pub open spec fn line_at(content: Seq<u8>, pos: int) -> int {
    1 + newlines(content.take(pos)) as int
}

/// Counts the line feeds in `bytes`.
pub fn count_newlines(bytes: &[u8]) -> (n: usize)
    ensures
        n == newlines(bytes@),
{
    let mut n: usize = 0;
    let mut i: usize = 0;
    while i < bytes.len()
        invariant
            i <= bytes@.len(),
            n == newlines(bytes@.take(i as int)),
            n <= i,
        decreases bytes@.len() - i,
    {
        assert(bytes@.take(i + 1).drop_last() =~= bytes@.take(i as int));
        if bytes[i] == '\n' as u8 {
            n += 1;
        }
        i += 1;
    }
    assert(bytes@.take(i as int) =~= bytes@);
    n
}

/// Line feeds add up over a concatenation.
pub proof fn lemma_newlines_concat(a: Seq<u8>, b: Seq<u8>)
    ensures
        newlines(a + b) == newlines(a) + newlines(b),
    decreases b.len(),
{
    if b.len() == 0 {
    } else {
        assert((a + b).drop_last() =~= a + b.drop_last());
        lemma_newlines_concat(a, b.drop_last());
    }
}

/// A sequence holds no more line feeds than bytes, and none at all where no
/// byte of it is a line feed.
pub proof fn lemma_newlines_bounds(s: Seq<u8>)
    ensures
        newlines(s) <= s.len(),
        (forall|i: int| 0 <= i < s.len() ==> s[i] != '\n' as u8) ==> newlines(s) == 0,
    decreases s.len(),
{
    if s.len() > 0 {
        lemma_newlines_bounds(s.drop_last());
    }
}

/// Reading `len` more bytes moves the line on by the line feeds among them:
/// the line never goes back, and it never passes the line of the buffer's
/// end.
pub proof fn lemma_line_advance(content: Seq<u8>, pos: int, len: int)
    requires
        0 <= pos,
        0 <= len,
        pos + len <= content.len(),
    ensures
        line_at(content, pos + len) == line_at(content, pos) + newlines(
            content.subrange(pos, pos + len),
        ),
        line_at(content, pos) <= line_at(content, pos + len) <= line_at(
            content,
            content.len() as int,
        ),
{
    assert(content.take(pos + len) =~= content.take(pos) + content.subrange(pos, pos + len));
    lemma_newlines_concat(content.take(pos), content.subrange(pos, pos + len));
    let all = content.len() as int;
    assert(content.take(all) =~= content.take(pos + len) + content.subrange(pos + len, all));
    lemma_newlines_concat(content.take(pos + len), content.subrange(pos + len, all));
}

} // verus!
