//! Byte-level vocabulary of the search: occurrences, word boundaries, line
//! terminators and case folding.
use bstr::ByteSlice;
use vstd::prelude::*;

verus! {

/// Whether `b` counts as part of a word: an ASCII letter or digit.
pub open spec fn is_word_byte(b: u8) -> bool {
    (48 <= b <= 57) || (65 <= b <= 90) || (97 <= b <= 122)
}

/// `pat` occurs in `line` starting at index `i`.
pub open spec fn occurs_at(line: Seq<u8>, pat: Seq<u8>, i: int) -> bool {
    0 <= i && i + pat.len() <= line.len() && line.subrange(i, i + pat.len()) == pat
}

/// `pat` occurs somewhere in `line`.
pub open spec fn contains(line: Seq<u8>, pat: Seq<u8>) -> bool {
    exists|i: int| occurs_at(line, pat, i)
}

/// Index `i` of `line` is the start of the line or follows a non-word byte.
pub open spec fn boundary_before(line: Seq<u8>, i: int) -> bool {
    i == 0 || !is_word_byte(line[i - 1])
}

/// Index `j` of `line` is the end of the line or holds a non-word byte.
pub open spec fn boundary_after(line: Seq<u8>, j: int) -> bool {
    j == line.len() || !is_word_byte(line[j])
}

/// Some occurrence of `pat` in `line` begins at a word boundary.
pub open spec fn starts_word(line: Seq<u8>, pat: Seq<u8>) -> bool {
    exists|i: int| occurs_at(line, pat, i) && boundary_before(line, i)
}

/// Some occurrence of `pat` in `line` ends at a word boundary.
pub open spec fn ends_word(line: Seq<u8>, pat: Seq<u8>) -> bool {
    exists|i: int| occurs_at(line, pat, i) && boundary_after(line, i + pat.len())
}

/// `line` without its trailing `\r\n` or `\n`, if it has one.
pub open spec fn trim_terminator_spec(line: Seq<u8>) -> Seq<u8> {
    if line.len() >= 2 && line[line.len() - 2] == 13 && line[line.len() - 1] == 10 {
        line.take(line.len() - 2)
    } else if line.len() >= 1 && line[line.len() - 1] == 10 {
        line.take(line.len() - 1)
    } else {
        line
    }
}

/// Every byte of `s` is ASCII.
pub open spec fn all_ascii(s: Seq<u8>) -> bool {
    forall|i: int| 0 <= i < s.len() ==> s[i] < 128
}

/// ASCII lowercase of one byte.
pub open spec fn lower_byte(b: u8) -> u8 {
    if 65 <= b <= 90 {
        (b + 32) as u8
    } else {
        b
    }
}

/// Byte-wise ASCII lowercase of `s`.
pub open spec fn ascii_lower(s: Seq<u8>) -> Seq<u8> {
    s.map_values(|b: u8| lower_byte(b))
}

/// The bytes of the Unicode lowercase of `s`, read as UTF-8 with invalid
/// sequences kept as they are.
pub uninterp spec fn unicode_lower(s: Seq<u8>) -> Seq<u8>;

/// The lowercase form used for caseless comparison: ASCII lowercasing for an
/// all-ASCII input, Unicode lowercasing otherwise.
pub open spec fn fold(s: Seq<u8>) -> Seq<u8> {
    if all_ascii(s) {
        ascii_lower(s)
    } else {
        unicode_lower(s)
    }
}

/// Relies on bstr's `ByteSlice::find`: the index of the first occurrence of
/// `needle` in `haystack`, if there is one.
#[verifier::external_body]
pub(crate) fn find_first(haystack: &[u8], needle: &[u8]) -> (r: Option<usize>)
    ensures
        match r {
            Some(i) => occurs_at(haystack@, needle@, i as int) && forall|j: int|
                0 <= j < i ==> !occurs_at(haystack@, needle@, j),
            None => forall|j: int| !occurs_at(haystack@, needle@, j),
        },
{
    haystack.find(needle)
}

/// Relies on bstr's `ByteSlice::to_lowercase_into`: the Unicode lowercase of
/// `s`, a function of its bytes alone.
#[verifier::external_body]
fn unicode_lowercase(s: &[u8]) -> (r: Vec<u8>)
    ensures
        r@ == unicode_lower(s@),
{
    let mut buf = Vec::new();
    s.to_lowercase_into(&mut buf);
    buf
}

/// Whether `b` is an ASCII letter or digit.
pub fn word_byte(b: u8) -> (r: bool)
    ensures
        r == is_word_byte(b),
{
    (48 <= b && b <= 57) || (65 <= b && b <= 90) || (97 <= b && b <= 122)
}

/// Whether every byte of `s` is ASCII.
pub fn is_ascii(s: &[u8]) -> (r: bool)
    ensures
        r == all_ascii(s@),
{
    let mut i: usize = 0;
    while i < s.len()
        invariant
            i <= s@.len(),
            forall|k: int| 0 <= k < i ==> s@[k] < 128,
        decreases s@.len() - i,
    {
        if s[i] >= 128 {
            return false;
        }
        i += 1;
    }
    true
}

/// Byte-wise ASCII lowercase of `s`; all other bytes are kept.
pub fn ascii_lowercase(s: &[u8]) -> (r: Vec<u8>)
    ensures
        r@ == ascii_lower(s@),
{
    let mut out: Vec<u8> = Vec::new();
    let mut i: usize = 0;
    while i < s.len()
        invariant
            i <= s@.len(),
            out@ == ascii_lower(s@.take(i as int)),
        decreases s@.len() - i,
    {
        let b = s[i];
        let c = if 65 <= b && b <= 90 {
            b + 32
        } else {
            b
        };
        out.push(c);
        proof {
            assert(s@.take(i + 1) == s@.take(i as int).push(b));
        }
        i += 1;
    }
    proof {
        assert(s@.take(s@.len() as int) == s@);
    }
    out
}

/// The lowercase form of `s` used for caseless comparison.
pub fn fold_case(s: &[u8]) -> (r: Vec<u8>)
    ensures
        r@ == fold(s@),
{
    if is_ascii(s) {
        ascii_lowercase(s)
    } else {
        unicode_lowercase(s)
    }
}

/// `line` without its trailing `\r\n` or `\n`, copied.
pub fn trim_terminator(line: &[u8]) -> (r: Vec<u8>)
    ensures
        r@ == trim_terminator_spec(line@),
{
    let n = line.len();
    let end = if n >= 2 && line[n - 2] == 13 && line[n - 1] == 10 {
        n - 2
    } else if n >= 1 && line[n - 1] == 10 {
        n - 1
    } else {
        n
    };
    vstd::slice::slice_to_vec(vstd::slice::slice_subrange(line, 0, end))
}

} // verus!
