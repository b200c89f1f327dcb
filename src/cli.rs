//! The options of a search as a command line gives them, and the rendered
//! output of a search under them.
use crate::lines::split_lines;
use crate::matcher::{outcome, Config, ConfigError, MatcherBuilder};
use crate::writer::{render, Writer};
use vstd::prelude::*;
use vstd::utf8::encode_utf8;

verus! {

/// A pattern and the options that control its search.
pub struct Cli {
    /// The text to look for.
    pub pattern: String,
    /// Only show matches containing words ending with the pattern.
    pub ends_with: bool,
    /// Case-insensitive search.
    pub ignore_case: bool,
    /// Limit the number of shown matches.
    pub max_count: Option<u64>,
    /// Do not show line numbers.
    pub no_line_number: bool,
    /// Only show matches containing words starting with the pattern.
    pub starts_with: bool,
}

impl Cli {
    /// The search options these command-line options stand for.
    pub open spec fn spec_config(&self) -> Config {
        Config {
            ignore_case: self.ignore_case,
            no_line_number: self.no_line_number,
            max_count: self.max_count,
            starts_with: self.starts_with,
            ends_with: self.ends_with,
        }
    }

    /// Searches `source` for the pattern and returns the text to show: one
    /// line per match, numbered unless line numbers are off. Both anchorings
    /// at once are refused.
    pub fn show_matches(self, source: &[u8]) -> (r: Result<Vec<u8>, ConfigError>)
        ensures
            self.starts_with && self.ends_with ==> r == Err::<Vec<u8>, ConfigError>(
                ConfigError::StartsAndEndsWith,
            ),
            !(self.starts_with && self.ends_with) ==> r is Ok && r->Ok_0@ == render(
                outcome(self.spec_config(), encode_utf8(self.pattern@), split_lines(source@)),
                self.no_line_number,
            ),
    {
        let ghost cfg = self.spec_config();
        let built = MatcherBuilder::new().ends_with(self.ends_with).ignore_case(
            self.ignore_case,
        ).max_count(self.max_count).no_line_number(self.no_line_number).starts_with(
            self.starts_with,
        ).build(self.pattern);
        match built {
            Err(e) => Err(e),
            Ok(matcher) => {
                assert(matcher.config == cfg);
                let result = matcher.get_matches(source);
                let mut wrt = Writer::new();
                wrt.print_lines_iter(result, &matcher.config);
                assert(wrt.wrt@ == Seq::<u8>::empty() + render(
                    outcome(cfg, matcher.pattern@, split_lines(source@)),
                    cfg.no_line_number,
                ));
                Ok(wrt.wrt)
            },
        }
    }
}

} // verus!
