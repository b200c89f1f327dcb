//! Searching in plain containment mode.
use crate::lines::split_lines;
use crate::matcher::{outcome, search_source, Config, MatchResult, Matcher};
use vstd::prelude::*;

verus! {

/// A search that reports lines containing the pattern anywhere, whatever
/// word anchoring its options ask for.
pub trait BaseSearch {
    /// The pattern bytes and the options of the search.
    spec fn spec_query(&self) -> (Seq<u8>, Config);

    /// Searches the lines of `source` for the pattern as a plain substring.
    fn get_matches(&self, source: &[u8]) -> (r: MatchResult)
        ensures
            r@ == outcome(
                Config { starts_with: false, ends_with: false, ..self.spec_query().1 },
                self.spec_query().0,
                split_lines(source@),
            ),
    ;
}

impl BaseSearch for Matcher {
    open spec fn spec_query(&self) -> (Seq<u8>, Config) {
        (self.pattern@, self.config)
    }

    fn get_matches(&self, source: &[u8]) -> (r: MatchResult) {
        search_source(
            self.pattern.as_slice(),
            Config { starts_with: false, ends_with: false, ..self.config },
            source,
        )
    }
}

} // verus!
