use grrs::matcher::{LineNumbers, MatchResult, MatcherBuilder};

const LINE: &str = "He started\nmade a run\n& stopped";
const LINE_BIN: &str = "He started\nmad\x00e a run\n& stopped";
const LINE_BIN2: &str = "He started\r\nmade a r\x00un\n& stopped";
const LINE_BIN3: &str = "He started\r\nmade a r\x00un\r\n& stopped";
const LINE_MAX_NON_ASCII: &str = "He started again\na\x00nd again\n& AΓain";

fn search(builder: MatcherBuilder, pattern: &str, source: &str) -> MatchResult {
    let matcher = builder.build(pattern.to_owned()).unwrap();
    matcher.get_matches(source.as_bytes())
}

#[test]
fn base_find_no_match() {
    let result = search(
        MatcherBuilder::new().no_line_number(true).max_count(None),
        "Made",
        LINE,
    );
    assert!(result.matches.is_empty());
    assert_eq!(result.line_numbers, LineNumbers::Unnumbered);
}

#[test]
fn base_find_a_match() {
    let result = search(
        MatcherBuilder::new().no_line_number(false).max_count(None),
        "made",
        LINE,
    );
    assert!(result.matches.len() == 1);
    assert_eq!(result.matches[0], &b"made a run"[..]);
    let line_number_inner: Vec<u64> = vec![2];
    assert_eq!(result.line_numbers, LineNumbers::Numbered(line_number_inner));
}

#[test]
fn base_search_binary_text() {
    let result = search(
        MatcherBuilder::new().no_line_number(false).max_count(None),
        "made",
        LINE_BIN,
    );
    assert_eq!(result.matches.len(), 0);
}

#[test]
fn base_search_binary_text2() {
    let result = search(
        MatcherBuilder::new().no_line_number(false).max_count(None),
        "made",
        LINE_BIN2,
    );
    assert_eq!(result.matches.len(), 1);
    assert_eq!(result.matches[0], &b"made a r\x00un"[..]);
}

#[test]
fn base_search_binary_text3() {
    let result = search(
        MatcherBuilder::new().no_line_number(false).max_count(None),
        "r\x00un",
        LINE_BIN3,
    );
    assert_eq!(result.matches.len(), 1);
    assert_eq!(result.matches[0], &b"made a r\x00un"[..]);
}

#[test]
fn base_line_number_caseless() {
    let result = search(
        MatcherBuilder::new()
            .ignore_case(true)
            .max_count(None)
            .no_line_number(false),
        "again",
        LINE_MAX_NON_ASCII,
    );
    assert!(result.matches.len() == 2);
    let line_number_inner: Vec<u64> = vec![1, 2];
    assert_eq!(result.line_numbers, LineNumbers::Numbered(line_number_inner));
}

#[test]
fn base_no_line_number_caseless() {
    let result = search(
        MatcherBuilder::new()
            .ignore_case(true)
            .max_count(None)
            .no_line_number(true),
        "aγain",
        LINE_MAX_NON_ASCII,
    );
    assert!(result.matches.len() == 1);
    assert_eq!(result.line_numbers, LineNumbers::Unnumbered);
}
