//! Parsers for the textual rule configuration.
pub mod matchers;
