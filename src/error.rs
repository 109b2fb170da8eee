//! Errors reported by the library.
use vstd::prelude::*;

verus! {

/// Why a pattern, a number or a window was refused.
#[derive(Debug, PartialEq, Eq)]
pub enum ScanError {
    /// A token of a hex-byte pattern is not exactly two hex digits; `offset`
    /// is the index of the character that starts it.
    InvalidBytePattern { offset: usize },
    /// The matcher refused the regular expression; `message` is its reason.
    PatternError { message: String },
    /// The window `[start, end)` does not lie inside a buffer of `len` bytes.
    OutOfBounds { start: usize, end: usize, len: usize },
    /// A number argument is neither decimal nor `0x`-prefixed hexadecimal.
    InvalidNumber,
}

} // verus!
