//! A line-oriented substring search over byte sources, with optional case
//! folding, word-anchored matching, line numbers and a cap on the number of
//! reported matches.
pub mod base;
pub mod bytes;
pub mod cli;
pub mod ends_with;
pub mod laws;
pub mod lines;
pub mod matcher;
pub mod predicate;
pub mod writer;
