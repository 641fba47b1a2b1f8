//! Command-line parsing.
pub mod parser;
