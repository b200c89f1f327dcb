use grrs::base::BaseSearch;
use grrs::ends_with::EndsWithSearch;
use grrs::matcher::{ConfigError, LineNumbers, MatchResult, MatcherBuilder, Searcher};

fn search(builder: MatcherBuilder, pattern: &str, source: &[u8]) -> MatchResult {
    builder.build(pattern.to_owned()).unwrap().get_matches(source)
}

fn numbers(result: &MatchResult) -> Vec<u64> {
    match &result.line_numbers {
        LineNumbers::Numbered(v) => v.clone(),
        LineNumbers::Unnumbered => panic!("line numbers expected"),
    }
}

#[test]
fn terminator_is_stripped_and_numbered() {
    let result = search(MatcherBuilder::new(), "made", b"He started\nmade a run\n& stopped");
    assert_eq!(result.matches, vec![b"made a run".to_vec()]);
    assert_eq!(numbers(&result), vec![2]);
}

#[test]
fn crlf_terminator_is_stripped() {
    let result = search(MatcherBuilder::new(), "b", b"a\r\nb\r\nc");
    assert_eq!(result.matches, vec![b"b".to_vec()]);
    assert_eq!(numbers(&result), vec![2]);
}

#[test]
fn numbers_align_with_matches() {
    let result = search(MatcherBuilder::new(), "a", b"a\nb\na\nab\n");
    assert_eq!(result.matches.len(), numbers(&result).len());
    assert_eq!(numbers(&result), vec![1, 3, 4]);
}

#[test]
fn repeated_search_is_identical() {
    let source = b"one\ntwo\nthree\ntwo again\n";
    let m = MatcherBuilder::new().build("two".to_owned()).unwrap();
    let first = m.get_matches(source);
    let second = m.get_matches(source);
    assert_eq!(first.matches, second.matches);
    assert_eq!(first.line_numbers, second.line_numbers);
}

#[test]
fn caseless_covers_case_sensitive() {
    let source = b"Run\nrun\nRUN away\nwalk\nrerun\n";
    let exact = search(MatcherBuilder::new(), "run", source);
    let caseless = search(MatcherBuilder::new().ignore_case(true), "run", source);
    assert_eq!(numbers(&exact), vec![2, 5]);
    assert_eq!(numbers(&caseless), vec![1, 2, 3, 5]);
    for (i, n) in numbers(&exact).iter().enumerate() {
        let j = numbers(&caseless).iter().position(|k| k == n).unwrap();
        assert_eq!(caseless.matches[j], exact.matches[i]);
    }
}

#[test]
fn caseless_pattern_is_folded() {
    let result = search(MatcherBuilder::new().ignore_case(true), "MADE", b"x\nMade it\n");
    assert_eq!(result.matches, vec![b"Made it".to_vec()]);
}

#[test]
fn caseless_unicode_folding() {
    let result = search(MatcherBuilder::new().ignore_case(true), "aγain", "& AΓain".as_bytes());
    assert_eq!(result.matches, vec!["& AΓain".as_bytes().to_vec()]);
    let exact = search(MatcherBuilder::new(), "aγain", "& AΓain".as_bytes());
    assert!(exact.matches.is_empty());
}

#[test]
fn max_count_keeps_first_n() {
    let source = b"a1\nb\na2\na3\na4\n";
    let all = search(MatcherBuilder::new(), "a", source);
    for n in 0..6u64 {
        let capped = search(MatcherBuilder::new().max_count(Some(n)), "a", source);
        let k = std::cmp::min(n as usize, all.matches.len());
        assert!(capped.matches.len() as u64 <= n);
        assert_eq!(capped.matches, all.matches[..k].to_vec());
        assert_eq!(numbers(&capped), numbers(&all)[..k].to_vec());
    }
}

#[test]
fn max_count_zero_reports_nothing() {
    let result = search(MatcherBuilder::new().max_count(Some(0)), "a", b"a\na\n");
    assert!(result.matches.is_empty());
    assert_eq!(result.line_numbers, LineNumbers::Numbered(vec![]));
}

#[test]
fn zero_byte_is_compared_exactly() {
    let source = b"ab\x00cd\nab cd\n";
    let hit = search(MatcherBuilder::new(), "b\x00c", source);
    assert_eq!(hit.matches, vec![b"ab\x00cd".to_vec()]);
    assert_eq!(numbers(&hit), vec![1]);
    let after = search(MatcherBuilder::new(), "cd", source);
    assert_eq!(numbers(&after), vec![1, 2]);
}

#[test]
fn ends_with_needs_word_end() {
    let result = search(
        MatcherBuilder::new().ends_with(true).max_count(Some(2)),
        "gain",
        b"againn\ngain\na\x00nd, again\n& A\xce\x93ain\nGain",
    );
    assert_eq!(result.matches, vec![b"gain".to_vec(), b"a\x00nd, again".to_vec()]);
    assert_eq!(numbers(&result), vec![2, 3]);
}

#[test]
fn ends_with_checks_every_occurrence() {
    let result = search(MatcherBuilder::new().ends_with(true), "aa", b"aaa\naab\n");
    assert_eq!(numbers(&result), vec![1]);
}

#[test]
fn starts_with_needs_word_start() {
    let result = search(
        MatcherBuilder::new().starts_with(true),
        "run",
        b"rerun\nrun fast\nto run\nre-run\nxrunrun\n",
    );
    assert_eq!(numbers(&result), vec![2, 3, 4]);
    assert_eq!(result.matches[2], b"re-run".to_vec());
}

#[test]
fn starts_with_checks_every_occurrence() {
    let result = search(MatcherBuilder::new().starts_with(true), "ab", b"cab ab\ncab\n");
    assert_eq!(numbers(&result), vec![1]);
}

#[test]
fn empty_pattern_matches_every_line() {
    let result = search(MatcherBuilder::new(), "", b"x\n\ny");
    assert_eq!(result.matches, vec![b"x".to_vec(), b"".to_vec(), b"y".to_vec()]);
    assert_eq!(numbers(&result), vec![1, 2, 3]);
}

#[test]
fn empty_source_has_no_matches() {
    let result = search(MatcherBuilder::new(), "", b"");
    assert!(result.matches.is_empty());
}

#[test]
fn both_anchors_are_rejected() {
    let built = MatcherBuilder::new()
        .starts_with(true)
        .ends_with(true)
        .build("x".to_owned());
    assert_eq!(built.err(), Some(ConfigError::StartsAndEndsWith));
}

#[test]
fn searcher_stops_when_full() {
    let m = MatcherBuilder::new().max_count(Some(1)).build("a".to_owned()).unwrap();
    let mut s = Searcher::new(&m);
    assert!(s.feed(b"b\n"));
    assert!(!s.feed(b"a\n"));
    assert!(!s.feed(b"a\n"));
    let result = s.finish();
    assert_eq!(result.matches, vec![b"a".to_vec()]);
    assert_eq!(result.line_numbers, LineNumbers::Numbered(vec![2]));
}

#[test]
fn base_search_ignores_anchoring() {
    let m = MatcherBuilder::new().ends_with(true).build("gain".to_owned()).unwrap();
    let plain = BaseSearch::get_matches(&m, b"againn\ngain\n");
    assert_eq!(numbers(&plain), vec![1, 2]);
    let anchored = m.get_matches(b"againn\ngain\n");
    assert_eq!(numbers(&anchored), vec![2]);
}

#[test]
fn ends_with_search_anchors_at_word_end() {
    let m = MatcherBuilder::new().no_line_number(true).build("gain".to_owned()).unwrap();
    let result = EndsWithSearch::get_matches(&m, b"againn\ngain\nregained\n");
    assert_eq!(result.matches, vec![b"gain".to_vec()]);
    assert_eq!(result.line_numbers, LineNumbers::Unnumbered);
}
