//! Scanning a buffer with a byte-oriented regular expression.
use vstd::prelude::*;

use crate::error::ScanError;

verus! {

#[verifier::external_type_specification]
#[verifier::external_body]
pub struct ExByteRegex(regex::bytes::Regex);

#[verifier::external_type_specification]
#[verifier::external_body]
pub struct ExRegexError(regex::Error);

/// Whether the regex crate compiles `pattern` as a byte regex without Unicode
/// and with `.` matching every byte.
pub uninterp spec fn byte_regex_accepts(pattern: Seq<char>) -> bool;

/// The spans of the matches that such a byte regex for `pattern` finds in
/// `haystack`, left to right.
pub uninterp spec fn byte_regex_spans(pattern: Seq<char>, haystack: Seq<u8>) -> Seq<(usize, usize)>;

/// Match spans of a haystack of `len` bytes as the matcher reports them:
/// each within the haystack and not reversed, each starting at or after the
/// end of the one before, starting strictly later and ending strictly later.
pub open spec fn spans_in_order(spans: Seq<(usize, usize)>, len: int) -> bool {
    &&& forall|k: int| #![trigger spans[k]] 0 <= k < spans.len() ==> spans[k].0 <= spans[k].1 <= len
    &&& forall|k: int|
        #![trigger spans[k]]
        0 <= k < spans.len() - 1 ==> spans[k].1 <= spans[k + 1].0 && spans[k].0 < spans[k + 1].0
            && spans[k].1 < spans[k + 1].1
}

/// Relies on regex's `bytes::RegexBuilder::build`, with Unicode off and `.`
/// matching new lines, then `bytes::Regex::find_iter`. Whether the build
/// succeeds depends on the pattern alone, and the matches on the pattern and
/// the haystack. Each match has `start <= end <= haystack.len()`; each search
/// resumes at the end of the previous match and skips an empty match that
/// ends where that one ended.
#[verifier::external_body]
fn scan_bytes(pattern: &str, haystack: &[u8]) -> (r: Result<Vec<(usize, usize)>, regex::Error>)
    ensures
        r is Ok <==> byte_regex_accepts(pattern@),
        r is Ok ==> r->Ok_0@ == byte_regex_spans(pattern@, haystack@),
        r is Ok ==> spans_in_order(r->Ok_0@, haystack@.len() as int),
{
    let re = regex::bytes::RegexBuilder::new(pattern)
        .unicode(false)
        .dot_matches_new_line(true)
        .build()?;
    Ok(re.find_iter(haystack).map(|m| (m.start(), m.end())).collect())
}

/// Relies on regex's `Error` through `ToString`: the message that describes it.
#[verifier::external_body]
fn regex_error_message(e: &regex::Error) -> String {
    e.to_string()
}

/// The matches that `filter` reports: none in an empty buffer, else every
/// match that the byte regex finds.
pub open spec fn reported_spans(pattern: Seq<char>, buffer: Seq<u8>) -> Seq<(usize, usize)> {
    if buffer.len() == 0 {
        Seq::empty()
    } else {
        byte_regex_spans(pattern, buffer)
    }
}

/// Every non-overlapping match of the byte regex `pattern` in `buffer`, as
/// `(start, end)` offsets in the order found; `PatternError` where the
/// pattern does not compile. An empty buffer has no match.
pub fn filter(pattern: &str, buffer: &[u8]) -> (r: Result<Vec<(usize, usize)>, ScanError>)
    ensures
        r is Ok <==> byte_regex_accepts(pattern@),
        r is Ok ==> r->Ok_0@ == reported_spans(pattern@, buffer@),
        r is Ok ==> spans_in_order(r->Ok_0@, buffer@.len() as int),
        r is Ok && buffer@.len() == 0 ==> r->Ok_0@.len() == 0,
        r is Err ==> r->Err_0 is PatternError,
{
    match scan_bytes(pattern, buffer) {
        Ok(spans) => {
            if buffer.len() == 0 {
                Ok(Vec::new())
            } else {
                Ok(spans)
            }
        },
        Err(e) => Err(ScanError::PatternError { message: regex_error_message(&e) }),
    }
}

/// How many of `total` matches are shown under `limit`, and whether some were
/// left out.
pub fn shown_matches(total: usize, limit: Option<usize>) -> (r: (usize, bool))
    ensures
        r.0 == match limit {
            Some(l) => if l < total {
                l
            } else {
                total
            },
            None => total,
        },
        r.1 == (r.0 < total),
{
    match limit {
        Some(l) => if l < total {
            (l, true)
        } else {
            (total, false)
        },
        None => (total, false),
    }
}

} // verus!
