//! Option values: the context window as the command line shows it, and
//! numbers written in decimal or with a `0x` prefix in hexadecimal.
use vstd::prelude::*;

use crate::context::{context_window, window_fits, ROW_WIDTH};
use crate::error::ScanError;
use crate::text::chars_of;

verus! {

/// The window around `[start, end)` with `lines` rows of context whose end is
/// the offset of its last byte: the end of `context_window` less one. Without
/// context it is the match itself.
pub open spec fn last_byte_window(start: int, end: int, lines: int) -> (int, int) {
    let w = context_window(start, end, lines);
    if lines == 0 {
        w
    } else {
        (w.0, w.1 - 1)
    }
}

/// The window shown around the match `[start, end)` with `context_lines` rows
/// of context; with context, its end is the offset of the last byte shown.
pub fn get_context_range(start: usize, end: usize, context_lines: usize) -> (r: (usize, usize))
    requires
        window_fits(end as int, context_lines as int),
    ensures
        (r.0 as int, r.1 as int) == last_byte_window(start as int, end as int, context_lines as int),
        context_lines == 0 ==> r == (start, end),
        context_lines > 0 ==> r.0 % ROW_WIDTH == 0 && (r.1 + 1) % (ROW_WIDTH as int) == 0,
        r.0 <= start,
        context_lines > 0 ==> r.1 >= end,
{
    if context_lines == 0 {
        return (start, end);
    }
    let w = crate::context::get_context_range(start, end, context_lines);
    (w.0, w.1 - 1)
}

/// The number that character `c` stands for as a digit: `0-9`, then `a-z` or
/// `A-Z` for 10 to 35; 36 for any other character.
pub open spec fn digit_number(c: char) -> int {
    if '0' <= c && c <= '9' {
        c as int - '0' as int
    } else if 'a' <= c && c <= 'z' {
        c as int - 'a' as int + 10
    } else if 'A' <= c && c <= 'Z' {
        c as int - 'A' as int + 10
    } else {
        36
    }
}

/// The value of digit `c` in base `radix`.
pub open spec fn digit_value(c: char, radix: int) -> Option<int> {
    if digit_number(c) < radix {
        Some(digit_number(c))
    } else {
        None
    }
}

/// Every character of `s` is a digit in base `radix`.
pub open spec fn all_digits(s: Seq<char>, radix: int) -> bool {
    forall|k: int| 0 <= k < s.len() ==> #[trigger] digit_value(s[k], radix) is Some
}

/// The number that the digits `s` write in base `radix`.
pub open spec fn digits_value(s: Seq<char>, radix: int) -> int
    decreases s.len(),
{
    if s.len() == 0 {
        0
    } else {
        digits_value(s.drop_last(), radix) * radix + digit_value(s.last(), radix)->0
    }
}

/// The `usize` written by `s` in base `radix`: an optional `+`, then at least
/// one digit; `None` where the text is anything else or the value is too large.
pub open spec fn number_value(s: Seq<char>, radix: int) -> Option<int> {
    let digits = if s.len() > 0 && s[0] == '+' {
        s.drop_first()
    } else {
        s
    };
    if digits.len() > 0 && all_digits(digits, radix) && digits_value(digits, radix) <= usize::MAX {
        Some(digits_value(digits, radix))
    } else {
        None
    }
}

/// The number that `s` gives as an option value: after a leading `0x`, the
/// rest read in hexadecimal; otherwise all of `s` read in decimal.
pub open spec fn hex_or_decimal(s: Seq<char>) -> Option<int> {
    if s.len() >= 2 && s[0] == '0' && s[1] == 'x' {
        number_value(s.subrange(2, s.len() as int), 16)
    } else {
        number_value(s, 10)
    }
}

/// The `usize` written by `s[from..]` in base `radix`.
fn parse_number(s: &Vec<char>, from: usize, radix: usize) -> (r: Option<usize>)
    requires
        from <= s.len(),
        2 <= radix <= 36,
    ensures
        match number_value(s@.subrange(from as int, s.len() as int), radix as int) {
            Some(v) => r == Some(v as usize) && v <= usize::MAX,
            None => r is None,
        },
{
    let n = s.len();
    let ghost text = s@.subrange(from as int, n as int);
    let mut first = from;
    if first < n && s[first] == '+' {
        first = first + 1;
    }
    let ghost digits = s@.subrange(first as int, n as int);
    assert(digits =~= (if text.len() > 0 && text[0] == '+' {
        text.drop_first()
    } else {
        text
    }));
    if first == n {
        return None;
    }
    let mut acc: usize = 0;
    let mut overflow = false;
    let mut i: usize = first;
    assert(s@.subrange(first as int, first as int) =~= Seq::<char>::empty());
    while i < n
        invariant
            first <= i <= n,
            n == s.len(),
            2 <= radix <= 36,
            digits == s@.subrange(first as int, n as int),
            text == s@.subrange(from as int, n as int),
            digits == (if text.len() > 0 && text[0] == '+' {
                text.drop_first()
            } else {
                text
            }),
            digits.len() > 0,
            all_digits(s@.subrange(first as int, i as int), radix as int),
            !overflow ==> digits_value(s@.subrange(first as int, i as int), radix as int) == acc,
            overflow ==> digits_value(s@.subrange(first as int, i as int), radix as int)
                > usize::MAX,
        decreases n - i,
    {
        let c = s[i];
        let d: usize = if '0' <= c && c <= '9' {
            (c as u32 - '0' as u32) as usize
        } else if 'a' <= c && c <= 'z' {
            (c as u32 - 'a' as u32 + 10) as usize
        } else if 'A' <= c && c <= 'Z' {
            (c as u32 - 'A' as u32 + 10) as usize
        } else {
            36
        };
        assert(d == digit_number(c));
        let ghost prefix = s@.subrange(first as int, i as int);
        let ghost next = s@.subrange(first as int, i + 1);
        assert(next.drop_last() =~= prefix);
        assert(next.last() == c);
        if d >= radix {
            assert(digits[i - first] == c);
            assert(digit_value(digits[i - first], radix as int) is None);
            assert(!all_digits(digits, radix as int));
            assert(number_value(text, radix as int) is None);
            return None;
        }
        assert(all_digits(next, radix as int)) by {
            assert forall|k: int| 0 <= k < next.len() implies #[trigger] digit_value(
                next[k],
                radix as int,
            ) is Some by {
                if k < prefix.len() {
                    assert(next[k] == prefix[k]);
                }
            }
        }
        let ghost before = digits_value(prefix, radix as int);
        assert(digits_value(next, radix as int) == before * radix + d);
        if overflow {
            assert(before * radix + d > usize::MAX) by (nonlinear_arith)
                requires
                    before > usize::MAX,
                    radix >= 2,
                    d >= 0,
            ;
        } else if acc > (usize::MAX - d) / radix {
            assert(acc * radix + d > usize::MAX) by (nonlinear_arith)
                requires
                    acc > (usize::MAX - d) / radix as int,
                    radix >= 2,
                    d <= usize::MAX,
            ;
            overflow = true;
        } else {
            assert(acc * radix + d <= usize::MAX) by (nonlinear_arith)
                requires
                    acc <= (usize::MAX - d) / radix as int,
                    radix >= 2,
                    d <= usize::MAX,
            ;
            acc = acc * radix + d;
        }
        i = i + 1;
    }
    assert(s@.subrange(first as int, n as int) == digits);
    if overflow {
        None
    } else {
        Some(acc)
    }
}

/// Reads a context size: after a leading `0x` in hexadecimal, otherwise in
/// decimal.
pub fn parse_hex_or_digit(arg: &str) -> (r: Result<usize, ScanError>)
    ensures
        match hex_or_decimal(arg@) {
            Some(v) => r == Ok::<usize, ScanError>(v as usize),
            None => r == Err::<usize, ScanError>(ScanError::InvalidNumber),
        },
{
    let s = chars_of(arg);
    let n = s.len();
    if n >= 2 && s[0] == '0' && s[1] == 'x' {
        return match parse_number(&s, 2, 16) {
            Some(v) => Ok(v),
            None => Err(ScanError::InvalidNumber),
        };
    }
    assert(s@.subrange(0, n as int) =~= s@);
    match parse_number(&s, 0, 10) {
        Some(v) => Ok(v),
        None => Err(ScanError::InvalidNumber),
    }
}

} // verus!
