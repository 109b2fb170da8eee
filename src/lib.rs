//! Search binary data with byte-oriented regular expressions.
//!
//! The library turns the accepted pattern notations into one regular-expression
//! source, runs the byte matcher over a buffer, and computes the row-aligned
//! window of bytes shown around each match.
pub mod context;
pub mod error;
pub mod filter;
pub mod options;
pub mod parser;
pub mod text;
