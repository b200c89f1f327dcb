//! The three line predicates: plain containment, and occurrences anchored at
//! the start or at the end of a word.
use crate::bytes::{
    boundary_after, boundary_before, contains, ends_word, find_first, occurs_at, starts_word,
    word_byte,
};
use vstd::prelude::*;

verus! {

/// Which predicate a search applies to each line.
#[derive(Clone, Copy, Debug, PartialEq, Eq)]
pub enum Mode {
    /// The pattern occurs anywhere in the line.
    Contains,
    /// The pattern occurs right after a word boundary.
    StartsWith,
    /// The pattern occurs right before a word boundary.
    EndsWith,
}

/// The predicate of `mode` applied to `line` and `pat`.
pub open spec fn mode_hit(mode: Mode, line: Seq<u8>, pat: Seq<u8>) -> bool {
    match mode {
        Mode::Contains => contains(line, pat),
        Mode::StartsWith => starts_word(line, pat),
        Mode::EndsWith => ends_word(line, pat),
    }
}

/// Whether `pat` occurs anywhere in `line`.
pub fn check_contains(line: &[u8], pat: &[u8]) -> (r: bool)
    ensures
        r == contains(line@, pat@),
{
    find_first(line, pat).is_some()
}

/// Whether some occurrence of `pat` in `line` sits at a word boundary: before
/// it when `at_start`, after it otherwise. Every occurrence is considered, not
/// only the first one.
fn check_anchored(line: &[u8], pat: &[u8], at_start: bool) -> (r: bool)
    ensures
        at_start ==> r == starts_word(line@, pat@),
        !at_start ==> r == ends_word(line@, pat@),
{
    let n = line.len();
    let m = pat.len();
    let mut start: usize = 0;
    while start <= n
        invariant
            n == line@.len(),
            m == pat@.len(),
            forall|j: int|
                0 <= j < start && #[trigger] occurs_at(line@, pat@, j) ==> if at_start {
                    !boundary_before(line@, j)
                } else {
                    !boundary_after(line@, j + m)
                },
        decreases n + 1 - start,
    {
        let rest = vstd::slice::slice_subrange(line, start, n);
        match find_first(rest, pat) {
            None => {
                assert forall|j: int| start <= j && occurs_at(line@, pat@, j) implies false by {
                    assert(rest@.subrange(j - start, j - start + m) == line@.subrange(j, j + m));
                    assert(occurs_at(rest@, pat@, j - start));
                }
                return false;
            },
            Some(k) => {
                let i = start + k;
                assert(rest@.subrange(k as int, k + m) == line@.subrange(i as int, i + m));
                assert(occurs_at(line@, pat@, i as int));
                assert forall|j: int| start <= j < i && occurs_at(line@, pat@, j) implies false by {
                    assert(rest@.subrange(j - start, j - start + m) == line@.subrange(j, j + m));
                    assert(occurs_at(rest@, pat@, j - start));
                }
                let accepted = if at_start {
                    i == 0 || !word_byte(line[i - 1])
                } else {
                    i + m == n || !word_byte(line[i + m])
                };
                if accepted {
                    assert(at_start ==> boundary_before(line@, i as int));
                    assert(!at_start ==> boundary_after(line@, i + m));
                    return true;
                }
                if i >= n {
                    return false;
                }
                start = i + 1;
            },
        }
    }
    false
}

/// Whether some occurrence of `pat` in `line` begins a word.
pub fn check_starts_with(line: &[u8], pat: &[u8]) -> (r: bool)
    ensures
        r == starts_word(line@, pat@),
{
    check_anchored(line, pat, true)
}

/// Whether some occurrence of `pat` in `line` ends a word.
pub fn check_ends_with(line: &[u8], pat: &[u8]) -> (r: bool)
    ensures
        r == ends_word(line@, pat@),
{
    check_anchored(line, pat, false)
}

/// The predicate of `mode` applied to `line` and `pat`.
pub fn check_mode(mode: Mode, line: &[u8], pat: &[u8]) -> (r: bool)
    ensures
        r == mode_hit(mode, line@, pat@),
{
    match mode {
        Mode::Contains => check_contains(line, pat),
        Mode::StartsWith => check_starts_with(line, pat),
        Mode::EndsWith => check_ends_with(line, pat),
    }
}

} // verus!
