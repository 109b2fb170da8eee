//! Normalization of the accepted pattern notations into byte-regex source.
use vstd::prelude::*;

use crate::error::ScanError;
use crate::text::{chars_of, hex_digit, is_hex_digit, is_space, join_chars, space};

verus! {

/// A hex digit that waits for its partner, output as it stands.
pub open spec fn flush(pending: Option<char>) -> Seq<char> {
    match pending {
        Some(d) => seq![d],
        None => Seq::empty(),
    }
}

/// The regex escape `\xHL` of the byte with digits `h` and `l`.
pub open spec fn escape(h: char, l: char) -> Seq<char> {
    seq!['\\', 'x', h, l]
}

/// Binary syntax read from `s` while `pending` holds an unpaired hex digit:
/// whitespace is dropped, two hex digits in a row become one escape, and any
/// other character is copied after the pending digit, if any.
pub open spec fn binary_syntax(s: Seq<char>, pending: Option<char>) -> Seq<char>
    decreases s.len(),
{
    if s.len() == 0 {
        flush(pending)
    } else {
        let c = s[0];
        let rest = s.drop_first();
        if is_space(c) {
            binary_syntax(rest, pending)
        } else if !is_hex_digit(c) {
            flush(pending) + seq![c] + binary_syntax(rest, None)
        } else {
            match pending {
                Some(p) => escape(p, c) + binary_syntax(rest, None),
                None => binary_syntax(rest, Some(c)),
            }
        }
    }
}

/// Hex-byte notation read from `s`, whose first character stands at `at`:
/// whitespace-separated tokens of exactly two hex digits, each one escape.
/// `Err` holds where the first other token starts.
pub open spec fn hex_bytes(s: Seq<char>, at: int) -> Result<Seq<char>, int>
    decreases s.len(),
{
    if s.len() == 0 {
        Ok(Seq::empty())
    } else if is_space(s[0]) {
        hex_bytes(s.drop_first(), at + 1)
    } else if s.len() >= 2 && is_hex_digit(s[0]) && is_hex_digit(s[1]) && (s.len() == 2
        || is_space(s[2])) {
        match hex_bytes(s.subrange(2, s.len() as int), at + 2) {
            Ok(r) => Ok(escape(s[0], s[1]) + r),
            Err(e) => Err(e),
        }
    } else {
        Err(at)
    }
}

/// `out` written before what `r` holds.
pub open spec fn prepend(out: Seq<char>, r: Result<Seq<char>, int>) -> Result<Seq<char>, int> {
    match r {
        Ok(t) => Ok(out + t),
        Err(e) => Err(e),
    }
}

/// Rewrites binary syntax (`dead be [ef|ed]`) into byte-regex source.
pub fn parse_binary_syntax(pattern: &str) -> (r: String)
    ensures
        r@ == binary_syntax(pattern@, None),
{
    let v = chars_of(pattern);
    let n = v.len();
    let mut pending: Option<char> = None;
    let mut out: Vec<char> = Vec::new();
    let mut i: usize = 0;
    assert(v@.subrange(0, n as int) =~= v@);
    assert(out@ + binary_syntax(v@, None) =~= binary_syntax(v@, None));
    while i < n
        invariant
            n == v@.len(),
            v@ == pattern@,
            i <= n,
            binary_syntax(v@, None) == out@ + binary_syntax(v@.subrange(i as int, n as int), pending),
        decreases n - i,
    {
        let c = v[i];
        let ghost rest = v@.subrange(i as int, n as int);
        assert(rest.drop_first() =~= v@.subrange(i + 1, n as int));
        assert(rest[0] == c);
        if space(c) {
        } else if !hex_digit(c) {
            if let Some(d) = pending {
                out.push(d);
            }
            out.push(c);
            pending = None;
        } else {
            match pending {
                Some(p) => {
                    out.push('\\');
                    out.push('x');
                    out.push(p);
                    out.push(c);
                    pending = None;
                },
                None => {
                    pending = Some(c);
                },
            }
        }
        i = i + 1;
    }
    if let Some(d) = pending {
        out.push(d);
    }
    assert(v@.subrange(n as int, n as int) =~= Seq::<char>::empty());
    assert(out@ =~= binary_syntax(pattern@, None));
    join_chars(&out)
}

/// Rewrites hex-byte notation (`ff 26 15 d3`) into byte-regex source, one
/// `\xHH` escape per token; a token other than two hex digits is refused.
pub fn parse_hex_bytes(pattern: &str) -> (r: Result<String, ScanError>)
    ensures
        match hex_bytes(pattern@, 0) {
            Ok(t) => r is Ok && r->Ok_0@ == t,
            Err(e) => r == Err::<String, ScanError>(ScanError::InvalidBytePattern { offset: e as usize }),
        },
{
    let v = chars_of(pattern);
    let n = v.len();
    let mut out: Vec<char> = Vec::new();
    let mut i: usize = 0;
    assert(v@.subrange(0, n as int) =~= v@);
    assert(out@ + v@ =~= v@);
    while i < n
        invariant
            n == v@.len(),
            v@ == pattern@,
            i <= n,
            hex_bytes(v@, 0) == prepend(out@, hex_bytes(v@.subrange(i as int, n as int), i as int)),
        decreases n - i,
    {
        let ghost rest = v@.subrange(i as int, n as int);
        let ghost old_out = out@;
        if space(v[i]) {
            assert(rest.drop_first() =~= v@.subrange(i + 1, n as int));
            i = i + 1;
        } else if n - i >= 2 && hex_digit(v[i]) && hex_digit(v[i + 1]) && (i + 2 == n || space(
            v[i + 2],
        )) {
            assert(rest.subrange(2, rest.len() as int) =~= v@.subrange(i + 2, n as int));
            out.push('\\');
            out.push('x');
            out.push(v[i]);
            out.push(v[i + 1]);
            assert(out@ =~= old_out + escape(v[i as int], v[i + 1]));
            proof {
                match hex_bytes(v@.subrange(i + 2, n as int), i + 2) {
                    Ok(t) => {
                        assert(old_out + (escape(v[i as int], v[i + 1]) + t) =~= out@ + t);
                    },
                    Err(_) => {},
                }
            }
            i = i + 2;
        } else {
            return Err(ScanError::InvalidBytePattern { offset: i });
        }
    }
    assert(v@.subrange(n as int, n as int) =~= Seq::<char>::empty());
    assert(out@ + Seq::<char>::empty() =~= out@);
    Ok(join_chars(&out))
}

/// The notation a pattern is written in.
#[derive(Clone, Copy, Debug, PartialEq, Eq, Structural)]
pub enum PatternSyntax {
    /// Byte-regex source, used as it stands.
    Regex,
    /// Whitespace-separated hex bytes: `ff 26 15 d3`.
    HexBytes,
    /// Hex bytes mixed with regex operators: `dead be [ef|ed]`.
    Binary,
}

/// The byte-regex source of pattern `s` written in `syntax`.
pub open spec fn normalized(s: Seq<char>, syntax: PatternSyntax) -> Result<Seq<char>, int> {
    match syntax {
        PatternSyntax::Regex => Ok(s),
        PatternSyntax::HexBytes => hex_bytes(s, 0),
        PatternSyntax::Binary => Ok(binary_syntax(s, None)),
    }
}

/// Rewrites `pattern`, written in `syntax`, into byte-regex source.
pub fn normalize_pattern(pattern: &str, syntax: PatternSyntax) -> (r: Result<String, ScanError>)
    ensures
        match normalized(pattern@, syntax) {
            Ok(t) => r is Ok && r->Ok_0@ == t,
            Err(e) => r == Err::<String, ScanError>(ScanError::InvalidBytePattern { offset: e as usize }),
        },
{
    match syntax {
        PatternSyntax::Regex => Ok(pattern.to_owned()),
        PatternSyntax::HexBytes => parse_hex_bytes(pattern),
        PatternSyntax::Binary => Ok(parse_binary_syntax(pattern)),
    }
}

/// Every component of `t` is a hex digit.
pub open spec fn hex_pairs(t: Seq<(char, char)>) -> bool {
    forall|k: int| 0 <= k < t.len() ==> is_hex_digit(#[trigger] t[k].0) && is_hex_digit(t[k].1)
}

/// The escapes of the bytes written as the digit pairs of `t`, in order.
pub open spec fn pair_escapes(t: Seq<(char, char)>) -> Seq<char>
    decreases t.len(),
{
    if t.len() == 0 {
        Seq::empty()
    } else {
        escape(t[0].0, t[0].1) + pair_escapes(t.drop_first())
    }
}

/// The digit pairs of `t` separated by single spaces: `ff 26 15 d3`.
pub open spec fn spaced_pairs(t: Seq<(char, char)>) -> Seq<char>
    decreases t.len(),
{
    if t.len() == 0 {
        Seq::empty()
    } else if t.len() == 1 {
        seq![t[0].0, t[0].1]
    } else {
        seq![t[0].0, t[0].1, ' '] + spaced_pairs(t.drop_first())
    }
}

/// The digit pairs of `t` written without separators: `ff2615d3`.
pub open spec fn packed_pairs(t: Seq<(char, char)>) -> Seq<char>
    decreases t.len(),
{
    if t.len() == 0 {
        Seq::empty()
    } else {
        seq![t[0].0, t[0].1] + packed_pairs(t.drop_first())
    }
}

/// Hex-byte notation of well-formed space-separated bytes is accepted and
/// gives one escape per byte, in the order written.
pub proof fn lemma_hex_bytes_escape_each(t: Seq<(char, char)>, at: int)
    requires
        hex_pairs(t),
    ensures
        hex_bytes(spaced_pairs(t), at) == Ok::<Seq<char>, int>(pair_escapes(t)),
    decreases t.len(),
{
    let s = spaced_pairs(t);
    if t.len() == 0 {
    } else {
        assert(is_hex_digit(t[0].0) && is_hex_digit(t[0].1));
        let rest = t.drop_first();
        lemma_hex_pairs_rest(t);
        lemma_hex_bytes_escape_each(rest, at + 3);
        assert(s[0] == t[0].0 && s[1] == t[0].1);
        if t.len() == 1 {
            assert(s.subrange(2, s.len() as int) =~= Seq::<char>::empty());
            assert(rest.len() == 0);
            assert(pair_escapes(t) =~= escape(t[0].0, t[0].1));
            assert(escape(t[0].0, t[0].1) + Seq::<char>::empty() =~= escape(t[0].0, t[0].1));
            assert(hex_bytes(Seq::<char>::empty(), at + 2) == Ok::<Seq<char>, int>(Seq::empty()));
        } else {
            let tail = s.subrange(2, s.len() as int);
            assert(tail =~= seq![' '] + spaced_pairs(rest));
            assert(tail.drop_first() =~= spaced_pairs(rest));
            assert(hex_bytes(tail, at + 2) == hex_bytes(spaced_pairs(rest), at + 3));
            assert(s[2] == ' ');
            assert(s.len() > 2);
        }
        assert(!is_space(s[0]));
    }
}

/// Binary syntax of packed hex digits gives the same source as hex-byte
/// notation of the same bytes written apart: `ff2615d3` and `ff 26 15 d3`.
pub proof fn lemma_packed_binary_matches_hex_bytes(t: Seq<(char, char)>)
    requires
        hex_pairs(t),
    ensures
        hex_bytes(spaced_pairs(t), 0) == Ok::<Seq<char>, int>(binary_syntax(packed_pairs(t), None)),
{
    lemma_hex_bytes_escape_each(t, 0);
    lemma_packed_binary_escapes(t);
}

proof fn lemma_hex_pairs_rest(t: Seq<(char, char)>)
    requires
        hex_pairs(t),
        t.len() > 0,
    ensures
        hex_pairs(t.drop_first()),
{
    let rest = t.drop_first();
    assert forall|k: int| 0 <= k < rest.len() implies is_hex_digit(#[trigger] rest[k].0)
        && is_hex_digit(rest[k].1) by {
        assert(rest[k] == t[k + 1]);
        assert(is_hex_digit(t[k + 1].0));
    }
}

proof fn lemma_packed_binary_escapes(t: Seq<(char, char)>)
    requires
        hex_pairs(t),
    ensures
        binary_syntax(packed_pairs(t), None) == pair_escapes(t),
    decreases t.len(),
{
    if t.len() > 0 {
        let rest = t.drop_first();
        assert(is_hex_digit(t[0].0) && is_hex_digit(t[0].1));
        lemma_hex_pairs_rest(t);
        lemma_packed_binary_escapes(rest);
        let s = packed_pairs(t);
        assert(s.drop_first().drop_first() =~= packed_pairs(rest));
        assert(s.drop_first()[0] == t[0].1);
        assert(binary_syntax(s.drop_first(), Some(t[0].0)) == escape(t[0].0, t[0].1)
            + binary_syntax(packed_pairs(rest), None));
    }
}

/// In binary syntax a character that is neither a hex digit nor whitespace
/// is copied exactly once, where it stands: what comes before it and what
/// comes after it are rewritten apart, and it sits between the two.
pub proof fn lemma_non_hex_copied(a: Seq<char>, c: char, b: Seq<char>, pending: Option<char>)
    requires
        !is_hex_digit(c),
        !is_space(c),
    ensures
        binary_syntax(a + seq![c] + b, pending) == binary_syntax(a, pending) + seq![c]
            + binary_syntax(b, None),
    decreases a.len(),
{
    let s = a + seq![c] + b;
    if a.len() == 0 {
        assert(s.drop_first() =~= b);
        assert(s[0] == c);
    } else {
        assert(s.drop_first() =~= a.drop_first() + seq![c] + b);
        assert(s[0] == a[0]);
        let d = a[0];
        if is_space(d) {
            lemma_non_hex_copied(a.drop_first(), c, b, pending);
        } else if !is_hex_digit(d) {
            lemma_non_hex_copied(a.drop_first(), c, b, None);
            assert(flush(pending) + seq![d] + (binary_syntax(a.drop_first(), None) + seq![c]
                + binary_syntax(b, None)) =~= flush(pending) + seq![d] + binary_syntax(
                a.drop_first(),
                None,
            ) + seq![c] + binary_syntax(b, None));
        } else {
            match pending {
                Some(p) => {
                    lemma_non_hex_copied(a.drop_first(), c, b, None);
                    assert(escape(p, d) + (binary_syntax(a.drop_first(), None) + seq![c]
                        + binary_syntax(b, None)) =~= escape(p, d) + binary_syntax(
                        a.drop_first(),
                        None,
                    ) + seq![c] + binary_syntax(b, None));
                },
                None => {
                    lemma_non_hex_copied(a.drop_first(), c, b, Some(d));
                },
            }
        }
    }
}

/// The characters of `s` that are neither hex digits nor whitespace, in order.
pub open spec fn plain_chars(s: Seq<char>) -> Seq<char>
    decreases s.len(),
{
    if s.len() == 0 {
        Seq::empty()
    } else if !is_hex_digit(s[0]) && !is_space(s[0]) {
        seq![s[0]] + plain_chars(s.drop_first())
    } else {
        plain_chars(s.drop_first())
    }
}

/// `o` read left to right with every `\xHH` escape of two hex digits and
/// every other hex digit deleted.
pub open spec fn strip_escapes(o: Seq<char>) -> Seq<char>
    decreases o.len(),
{
    if o.len() == 0 {
        Seq::empty()
    } else if o.len() >= 4 && o[0] == '\\' && o[1] == 'x' && is_hex_digit(o[2]) && is_hex_digit(
        o[3],
    ) {
        strip_escapes(o.subrange(4, o.len() as int))
    } else if is_hex_digit(o[0]) {
        strip_escapes(o.drop_first())
    } else {
        seq![o[0]] + strip_escapes(o.drop_first())
    }
}

/// Binary syntax output never starts with two hex digits.
proof fn lemma_no_leading_pair(s: Seq<char>)
    ensures
        ({
            let x = binary_syntax(s, None);
            x.len() >= 2 ==> !(is_hex_digit(x[0]) && is_hex_digit(x[1]))
        }),
    decreases s.len(),
{
    if s.len() > 0 {
        let c = s[0];
        if is_space(c) {
            lemma_no_leading_pair(s.drop_first());
        } else if is_hex_digit(c) {
            lemma_pending_start(s.drop_first(), c);
        }
    }
}

/// With a pending digit `e`, the output starts with an escape, or with `e`
/// followed by nothing or by a character that is no hex digit.
proof fn lemma_pending_start(s: Seq<char>, e: char)
    requires
        is_hex_digit(e),
    ensures
        ({
            let x = binary_syntax(s, Some(e));
            x.len() >= 1 && (x[0] == '\\' || (x[0] == e && (x.len() == 1 || !is_hex_digit(x[1]))))
        }),
    decreases s.len(),
{
    if s.len() > 0 {
        let c = s[0];
        if is_space(c) {
            lemma_pending_start(s.drop_first(), e);
        }
    }
}

/// Binary syntax output that starts with `x` does not go on with two hex
/// digits.
proof fn lemma_no_leading_x_pair(s: Seq<char>)
    ensures
        ({
            let x = binary_syntax(s, None);
            x.len() >= 3 && x[0] == 'x' ==> !(is_hex_digit(x[1]) && is_hex_digit(x[2]))
        }),
    decreases s.len(),
{
    if s.len() > 0 {
        let c = s[0];
        let rest = s.drop_first();
        if is_space(c) {
            lemma_no_leading_x_pair(rest);
        } else if !is_hex_digit(c) {
            lemma_no_leading_pair(rest);
            let y = binary_syntax(rest, None);
            assert(binary_syntax(s, None) =~= seq![c] + y);
        } else {
            lemma_pending_start(rest, c);
        }
    }
}

proof fn lemma_strip_plain_char(c: char, x: Seq<char>)
    requires
        !is_hex_digit(c),
        c == '\\' ==> !(x.len() >= 3 && x[0] == 'x' && is_hex_digit(x[1]) && is_hex_digit(x[2])),
    ensures
        strip_escapes(seq![c] + x) == seq![c] + strip_escapes(x),
{
    let o = seq![c] + x;
    assert(o.drop_first() =~= x);
}

proof fn lemma_strip_digit(d: char, x: Seq<char>)
    requires
        is_hex_digit(d),
    ensures
        strip_escapes(seq![d] + x) == strip_escapes(x),
{
    let o = seq![d] + x;
    assert(o.drop_first() =~= x);
}

proof fn lemma_strip_escape(h: char, l: char, x: Seq<char>)
    requires
        is_hex_digit(h),
        is_hex_digit(l),
    ensures
        strip_escapes(escape(h, l) + x) == strip_escapes(x),
{
    let o = escape(h, l) + x;
    assert(o.subrange(4, o.len() as int) =~= x);
}

proof fn lemma_strip_binary(s: Seq<char>, pending: Option<char>)
    requires
        pending is Some ==> is_hex_digit(pending->0),
    ensures
        strip_escapes(binary_syntax(s, pending)) == plain_chars(s),
    decreases s.len(),
{
    if s.len() == 0 {
        if let Some(d) = pending {
            lemma_strip_digit(d, Seq::empty());
            assert(seq![d] + Seq::<char>::empty() =~= seq![d]);
        }
    } else {
        let c = s[0];
        let rest = s.drop_first();
        if is_space(c) {
            lemma_strip_binary(rest, pending);
        } else if !is_hex_digit(c) {
            let x = binary_syntax(rest, None);
            lemma_strip_binary(rest, None);
            lemma_no_leading_x_pair(rest);
            lemma_strip_plain_char(c, x);
            match pending {
                Some(d) => {
                    assert(flush(pending) + seq![c] + x =~= seq![d] + (seq![c] + x));
                    lemma_strip_digit(d, seq![c] + x);
                },
                None => {
                    assert(flush(pending) + seq![c] + x =~= seq![c] + x);
                },
            }
        } else {
            match pending {
                Some(d) => {
                    lemma_strip_binary(rest, None);
                    lemma_strip_escape(d, c, binary_syntax(rest, None));
                },
                None => {
                    lemma_strip_binary(rest, Some(c));
                },
            }
        }
    }
}

/// Deleting from binary syntax output every `\xHH` escape and every lone hex
/// digit leaves exactly the input's characters that are neither hex digits
/// nor whitespace: each once, unchanged and in the order written.
pub proof fn lemma_plain_chars_kept(s: Seq<char>)
    ensures
        strip_escapes(binary_syntax(s, None)) == plain_chars(s),
{
    lemma_strip_binary(s, None);
}

} // verus!
