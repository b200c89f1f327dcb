use grrs::cli::Cli;
use grrs::matcher::{ConfigError, MatcherBuilder};
use grrs::writer::Writer;

const DICKENS: &str = "\
He started      \r
make a run
& stopped.
He started
made a quick run
and stopped
He started
made a RuN
and then stopped\
";

fn cli(pattern: &str) -> Cli {
    Cli {
        pattern: pattern.to_owned(),
        ends_with: false,
        ignore_case: false,
        max_count: None,
        no_line_number: false,
        starts_with: false,
    }
}

#[test]
fn print_dickens() {
    let expected = "\
2:make a run
5:made a quick run
";
    let matcher = MatcherBuilder::new()
        .no_line_number(false)
        .max_count(None)
        .build("run".to_owned())
        .unwrap();
    let result = matcher.get_matches(DICKENS.as_bytes());
    let mut wrt = Writer::new();
    wrt.print_lines_iter(result, &matcher.config);
    assert_eq!(expected.as_bytes(), &wrt.wrt[..]);
}

#[test]
fn print_dickens_no_line_number() {
    let expected = "\
make a run
";
    let matcher = MatcherBuilder::new()
        .no_line_number(true)
        .max_count(Some(1))
        .build("run".to_owned())
        .unwrap();
    let result = matcher.get_matches(DICKENS.as_bytes());
    let mut wrt = Writer::new();
    wrt.print_lines_iter(result, &matcher.config);
    assert_eq!(expected.as_bytes(), &wrt.wrt[..]);
}

#[test]
fn show_matches_numbers_lines() {
    let out = cli("test")
        .show_matches(b"A test\nActual content\nMore content\nAnother test\n")
        .unwrap();
    assert_eq!(out, b"1:A test\n4:Another test\n".to_vec());
}

#[test]
fn show_matches_empty_pattern_shows_every_line() {
    let mut c = cli("");
    c.no_line_number = true;
    let out = c.show_matches(b"a\nb\n").unwrap();
    assert_eq!(out, b"a\nb\n".to_vec());
}

#[test]
fn show_matches_multi_digit_line_numbers() {
    let source = "x\nx\nx\nx\nx\nx\nx\nx\nx\nx\nx\nhit\n";
    let out = cli("hit").show_matches(source.as_bytes()).unwrap();
    assert_eq!(out, b"12:hit\n".to_vec());
}

#[test]
fn show_matches_replaces_invalid_utf8() {
    let out = cli("ok").show_matches(b"ok \xff\n").unwrap();
    assert_eq!(out, "1:ok \u{FFFD}\n".as_bytes().to_vec());
}

#[test]
fn show_matches_rejects_both_anchors() {
    let mut c = cli("a");
    c.starts_with = true;
    c.ends_with = true;
    assert_eq!(c.show_matches(b"a\n"), Err(ConfigError::StartsAndEndsWith));
}
