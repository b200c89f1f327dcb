//! Properties of the search that relate several runs of it.
use crate::bytes::{all_ascii, ascii_lower, fold, is_word_byte, lower_byte, occurs_at};
use crate::lines::{lemma_split_lines_unfold, split_lines};
use crate::matcher::{
    hit_numbers, lemma_hit_numbers_ordered, line_hit, outcome, reported, search_spec, Config,
    Matcher,
};
use vstd::prelude::*;

verus! {

/// When line numbers are tracked there is exactly one number per match, and
/// none is reported when they are not.
pub proof fn lemma_numbers_align_with_matches(m: Matcher, src: Seq<u8>)
    ensures
        !m.config.no_line_number ==> search_spec(m, src).1 is Some && search_spec(
            m,
            src,
        ).1->0.len() == search_spec(m, src).0.len(),
        m.config.no_line_number ==> search_spec(m, src).1 is None,
{
}

/// Searching the same source twice with the same pattern and options gives
/// the same result, byte for byte.
pub proof fn lemma_search_repeatable(m1: Matcher, m2: Matcher, src1: Seq<u8>, src2: Seq<u8>)
    requires
        m1.pattern@ == m2.pattern@,
        m1.config == m2.config,
        src1 == src2,
    ensures
        search_spec(m1, src1) == search_spec(m2, src2),
{
}

/// Which lines match does not depend on the cap or on line numbering.
pub proof fn lemma_hits_ignore_cap(c1: Config, c2: Config, pat: Seq<u8>, lines: Seq<Seq<u8>>)
    requires
        c1.ignore_case == c2.ignore_case,
        c1.starts_with == c2.starts_with,
        c1.ends_with == c2.ends_with,
    ensures
        hit_numbers(c1, pat, lines) == hit_numbers(c2, pat, lines),
    decreases lines.len(),
{
    if lines.len() > 0 {
        lemma_hits_ignore_cap(c1, c2, pat, lines.drop_last());
    }
}

/// With a cap of `n`, a search reports at most `n` matches, and they are the
/// first `n` matches of the uncapped search, in source order.
pub proof fn lemma_max_count_first_n(m: Matcher, src: Seq<u8>, n: u64)
    ensures
        ({
            let capped = Config { max_count: Some(n), ..m.config };
            let open = Config { max_count: None, ..m.config };
            let lines = split_lines(src);
            let rc = outcome(capped, m.pattern@, lines);
            let ro = outcome(open, m.pattern@, lines);
            let k = if ro.0.len() <= n {
                ro.0.len() as int
            } else {
                n as int
            };
            &&& rc.0.len() <= n
            &&& rc.0 == ro.0.take(k)
            &&& reported(capped, m.pattern@, lines) == reported(open, m.pattern@, lines).take(k)
            &&& forall|i: int, j: int|
                0 <= i < j < rc.0.len() ==> reported(capped, m.pattern@, lines)[i] < reported(
                    capped,
                    m.pattern@,
                    lines,
                )[j]
        }),
{
    let capped = Config { max_count: Some(n), ..m.config };
    let open = Config { max_count: None, ..m.config };
    let lines = split_lines(src);
    lemma_hits_ignore_cap(capped, open, m.pattern@, lines);
    lemma_hit_numbers_ordered(open, m.pattern@, lines);
    let h = hit_numbers(open, m.pattern@, lines);
    let k = if h.len() <= n {
        h.len() as int
    } else {
        n as int
    };
    assert(h.take(k) == reported(capped, m.pattern@, lines));
    assert(h == h.take(h.len() as int));
}

/// The lines of an all-ASCII source are all-ASCII.
pub proof fn lemma_lines_ascii(src: Seq<u8>)
    requires
        all_ascii(src),
    ensures
        forall|i: int| 0 <= i < split_lines(src).len() ==> all_ascii(#[trigger] split_lines(src)[i]),
    decreases src.len(),
{
    if src.len() > 0 {
        lemma_split_lines_unfold(src);
        let k = crate::lines::first_line_len(src) as int;
        let rest = src.skip(k);
        assert(all_ascii(rest)) by {
            assert forall|j: int| 0 <= j < rest.len() implies rest[j] < 128 by {
                assert(rest[j] == src[j + k]);
            }
        }
        lemma_lines_ascii(rest);
        assert forall|i: int| 0 <= i < split_lines(src).len() implies all_ascii(
            #[trigger] split_lines(src)[i],
        ) by {
            if i > 0 {
                assert(split_lines(src)[i] == split_lines(rest)[i - 1]);
            } else {
                assert(split_lines(src)[0] == src.take(k));
            }
        }
    }
}

/// Lowercasing keeps whether a byte belongs to a word.
proof fn lemma_lower_keeps_word(b: u8)
    ensures
        is_word_byte(lower_byte(b)) == is_word_byte(b),
{
}

/// An occurrence in ASCII text is an occurrence in its lowercase form.
proof fn lemma_lower_keeps_occurrence(line: Seq<u8>, pat: Seq<u8>, i: int)
    requires
        occurs_at(line, pat, i),
    ensures
        occurs_at(ascii_lower(line), ascii_lower(pat), i),
{
    assert(ascii_lower(line).subrange(i, i + pat.len()) == ascii_lower(pat)) by {
        assert forall|k: int| 0 <= k < pat.len() implies ascii_lower(line).subrange(
            i,
            i + pat.len(),
        )[k] == ascii_lower(pat)[k] by {
            assert(line[i + k] == line.subrange(i, i + pat.len())[k]);
        }
    }
}

/// A line of ASCII text that matches an ASCII pattern also matches it when
/// case is ignored.
pub proof fn lemma_line_hit_caseless(cfg: Config, pat: Seq<u8>, line: Seq<u8>)
    requires
        all_ascii(pat),
        all_ascii(line),
        !cfg.ignore_case,
        line_hit(cfg, pat, line),
    ensures
        line_hit(Config { ignore_case: true, ..cfg }, pat, line),
{
    let lc = ascii_lower(line);
    let pc = ascii_lower(pat);
    assert(fold(line) == lc);
    assert(fold(pat) == pc);
    if cfg.starts_with {
        let i = choose|i: int| occurs_at(line, pat, i) && crate::bytes::boundary_before(line, i);
        lemma_lower_keeps_occurrence(line, pat, i);
        if i > 0 {
            lemma_lower_keeps_word(line[i - 1]);
        }
        assert(occurs_at(lc, pc, i) && crate::bytes::boundary_before(lc, i));
    } else if cfg.ends_with {
        let i = choose|i: int|
            occurs_at(line, pat, i) && crate::bytes::boundary_after(line, i + pat.len());
        lemma_lower_keeps_occurrence(line, pat, i);
        if i + pat.len() < line.len() {
            lemma_lower_keeps_word(line[i + pat.len()]);
        }
        assert(occurs_at(lc, pc, i) && crate::bytes::boundary_after(lc, i + pc.len()));
    } else {
        let i = choose|i: int| occurs_at(line, pat, i);
        lemma_lower_keeps_occurrence(line, pat, i);
    }
}

/// Over ASCII lines, every hit of a case-sensitive search is a hit of the
/// same search ignoring case.
pub proof fn lemma_hits_caseless(cfg: Config, pat: Seq<u8>, lines: Seq<Seq<u8>>)
    requires
        all_ascii(pat),
        forall|i: int| 0 <= i < lines.len() ==> all_ascii(#[trigger] lines[i]),
        !cfg.ignore_case,
    ensures
        forall|i: int|
            0 <= i < hit_numbers(cfg, pat, lines).len() ==> hit_numbers(
                Config { ignore_case: true, ..cfg },
                pat,
                lines,
            ).contains(#[trigger] hit_numbers(cfg, pat, lines)[i]),
    decreases lines.len(),
{
    if lines.len() > 0 {
        let cc = Config { ignore_case: true, ..cfg };
        let prev = lines.drop_last();
        lemma_hits_caseless(cfg, pat, prev);
        assert(all_ascii(lines[lines.len() - 1]));
        if line_hit(cfg, pat, lines.last()) {
            lemma_line_hit_caseless(cfg, pat, lines.last());
        }
        let h = hit_numbers(cfg, pat, lines);
        let hc = hit_numbers(cc, pat, lines);
        let hp = hit_numbers(cfg, pat, prev);
        let hcp = hit_numbers(cc, pat, prev);
        assert forall|i: int| 0 <= i < h.len() implies hc.contains(#[trigger] h[i]) by {
            if i < hp.len() {
                assert(h[i] == hp[i]);
                let j = choose|j: int| 0 <= j < hcp.len() && hcp[j] == hp[i];
                assert(hc[j] == hcp[j]);
            } else {
                assert(hc.last() == lines.len());
            }
        }
    }
}

/// Under ASCII text and without a cap, every line reported by a
/// case-sensitive search is also reported by the same search ignoring case.
/// A reported number determines the reported bytes (the line it names, without
/// terminator), so the caseless matches cover the case-sensitive ones.
pub proof fn lemma_caseless_covers_exact(m: Matcher, src: Seq<u8>)
    requires
        all_ascii(src),
        all_ascii(m.pattern@),
        !m.config.ignore_case,
        m.config.max_count is None,
    ensures
        ({
            let cc = Config { ignore_case: true, ..m.config };
            let lines = split_lines(src);
            forall|k: int|
                #[trigger] reported(m.config, m.pattern@, lines).contains(k) ==> reported(
                    cc,
                    m.pattern@,
                    lines,
                ).contains(k)
        }),
{
    let cc = Config { ignore_case: true, ..m.config };
    let lines = split_lines(src);
    let pat = m.pattern@;
    lemma_lines_ascii(src);
    lemma_hits_caseless(m.config, pat, lines);
    let h = hit_numbers(m.config, pat, lines);
    let hc = hit_numbers(cc, pat, lines);
    assert forall|k: int| #[trigger] h.contains(k) implies hc.contains(k) by {
        let i = choose|i: int| 0 <= i < h.len() && h[i] == k;
        assert(hc.contains(h[i]));
    }
}

} // verus!
