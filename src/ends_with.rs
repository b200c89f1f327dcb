//! Searching for the pattern at the end of a word.
use crate::lines::split_lines;
use crate::matcher::{outcome, search_source, Config, MatchResult, Matcher};
use vstd::prelude::*;

verus! {

/// A search that reports lines where the pattern ends a word, whatever
/// anchoring its options ask for.
pub trait EndsWithSearch {
    /// The pattern bytes and the options of the search.
    spec fn spec_query(&self) -> (Seq<u8>, Config);

    /// Searches the lines of `source` for the pattern followed by a word
    /// boundary.
    fn get_matches(&self, source: &[u8]) -> (r: MatchResult)
        ensures
            r@ == outcome(
                Config { starts_with: false, ends_with: true, ..self.spec_query().1 },
                self.spec_query().0,
                split_lines(source@),
            ),
    ;
}

impl EndsWithSearch for Matcher {
    open spec fn spec_query(&self) -> (Seq<u8>, Config) {
        (self.pattern@, self.config)
    }

    fn get_matches(&self, source: &[u8]) -> (r: MatchResult) {
        search_source(
            self.pattern.as_slice(),
            Config { starts_with: false, ends_with: true, ..self.config },
            source,
        )
    }
}

} // verus!
