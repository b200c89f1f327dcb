//! Splitting a byte source into lines that keep their terminators.
use vstd::prelude::*;

verus! {

/// Length of the first line of `s`, its `\n` included when it has one.
pub open spec fn first_line_len(s: Seq<u8>) -> nat
    decreases s.len(),
{
    if s.len() == 0 {
        0
    } else if s[0] == 10 {
        1
    } else {
        1 + first_line_len(s.drop_first())
    }
}

/// The lines of `s` in order, each with its terminator (`\n` or `\r\n`) as it
/// stands in `s`; a last line without terminator is kept as it is.
pub open spec fn split_lines(s: Seq<u8>) -> Seq<Seq<u8>>
    decreases s.len(),
{
    let k = first_line_len(s);
    if s.len() == 0 || k == 0 || k > s.len() {
        seq![]
    } else {
        seq![s.take(k as int)] + split_lines(s.skip(k as int))
    }
}

/// A non-empty source has a non-empty first line that fits in it.
pub proof fn lemma_first_line_len_bounds(s: Seq<u8>)
    ensures
        s.len() > 0 ==> 0 < first_line_len(s) <= s.len(),
        s.len() == 0 ==> first_line_len(s) == 0,
    decreases s.len(),
{
    if s.len() > 0 && s[0] != 10 {
        lemma_first_line_len_bounds(s.drop_first());
    }
}

/// A source holds at most as many lines as bytes.
pub proof fn lemma_split_lines_len(s: Seq<u8>)
    ensures
        split_lines(s).len() <= s.len(),
    decreases s.len(),
{
    lemma_first_line_len_bounds(s);
    if s.len() > 0 {
        lemma_split_lines_len(s.skip(first_line_len(s) as int));
    }
}

/// The lines of a non-empty source are its first line followed by the lines
/// of what comes after it.
pub proof fn lemma_split_lines_unfold(s: Seq<u8>)
    requires
        s.len() > 0,
    ensures
        0 < first_line_len(s) <= s.len(),
        split_lines(s) == seq![s.take(first_line_len(s) as int)] + split_lines(
            s.skip(first_line_len(s) as int),
        ),
{
    lemma_first_line_len_bounds(s);
}

/// The index just past the line of `src` that begins at `start`.
pub fn line_end(src: &[u8], start: usize) -> (e: usize)
    requires
        start < src@.len(),
    ensures
        start < e <= src@.len(),
        e - start == first_line_len(src@.skip(start as int)),
{
    let n = src.len();
    let mut i: usize = start;
    while i < n
        invariant
            start <= i <= n,
            n == src@.len(),
            first_line_len(src@.skip(start as int)) == (i - start) + first_line_len(
                src@.skip(i as int),
            ),
        decreases n - i,
    {
        assert(src@.skip(i as int)[0] == src@[i as int]);
        if src[i] == 10 {
            return i + 1;
        }
        assert(src@.skip(i as int).drop_first() == src@.skip(i + 1));
        i += 1;
    }
    proof {
        lemma_first_line_len_bounds(src@.skip(i as int));
    }
    i
}

} // verus!
