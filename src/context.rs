//! The row-aligned window of bytes shown around a match.
use vstd::prelude::*;

use crate::error::ScanError;

verus! {

/// Bytes per row of a hex dump; windows are whole rows.
pub const ROW_WIDTH: usize = 16;

/// `x` rounded down to a whole row.
pub open spec fn row_floor(x: int) -> int {
    x - x % 16
}

/// `x` rounded up to a whole row.
pub open spec fn row_ceil(x: int) -> int {
    if x % 16 == 0 {
        x
    } else {
        x - x % 16 + 16
    }
}

/// The window `[display_start, display_end)` shown around the match
/// `[start, end)` with `lines` rows of context: the match itself without
/// context, else the match widened by `lines` rows on each side (never below
/// offset 0) and rounded out to whole rows.
pub open spec fn context_window(start: int, end: int, lines: int) -> (int, int) {
    if lines == 0 {
        (start, end)
    } else {
        let widened = if start >= lines * 16 {
            start - lines * 16
        } else {
            0
        };
        (row_floor(widened), row_ceil(end + lines * 16))
    }
}

/// The end of the window fits in a `usize`.
pub open spec fn window_fits(end: int, lines: int) -> bool {
    lines == 0 || row_ceil(end + lines * 16) <= usize::MAX
}

/// The window shown around the match `[start, end)` with `context_lines` rows
/// of context on each side.
pub fn get_context_range(start: usize, end: usize, context_lines: usize) -> (r: (usize, usize))
    requires
        window_fits(end as int, context_lines as int),
    ensures
        (r.0 as int, r.1 as int) == context_window(start as int, end as int, context_lines as int),
        context_lines == 0 ==> r == (start, end),
        context_lines > 0 ==> r.0 % ROW_WIDTH == 0 && r.1 % ROW_WIDTH == 0,
        r.0 <= start,
        r.1 >= end,
{
    if context_lines == 0 {
        return (start, end);
    }
    let context_size = context_lines * ROW_WIDTH;
    let context_start = if start >= context_size {
        start - context_size
    } else {
        0
    };
    let context_start = context_start - context_start % ROW_WIDTH;
    let widened_end = end + context_size;
    let context_end = if widened_end % ROW_WIDTH == 0 {
        widened_end
    } else {
        widened_end - widened_end % ROW_WIDTH + ROW_WIDTH
    };
    (context_start, context_end)
}

/// The window around the match `[start, end)` of a buffer of `buffer_len`
/// bytes, refused when it reaches past the buffer's end.
pub fn display_window(start: usize, end: usize, context_lines: usize, buffer_len: usize) -> (r:
    Result<(usize, usize), ScanError>)
    requires
        start <= end <= buffer_len,
    ensures
        ({
            let w = context_window(start as int, end as int, context_lines as int);
            if w.1 <= buffer_len {
                r == Ok::<(usize, usize), ScanError>((w.0 as usize, w.1 as usize))
            } else {
                r == Err::<(usize, usize), ScanError>(
                    ScanError::OutOfBounds { start, end, len: buffer_len },
                )
            }
        }),
{
    if context_lines == 0 {
        return Ok((start, end));
    }
    if context_lines > (buffer_len - end) / ROW_WIDTH {
        proof {
            let room = buffer_len - end;
            assert(context_lines * 16 >= (room / 16 + 1) * 16) by (nonlinear_arith)
                requires
                    context_lines > room / 16,
            ;
            assert(row_ceil(end + context_lines * 16) >= end + context_lines * 16);
        }
        return Err(ScanError::OutOfBounds { start, end, len: buffer_len });
    }
    proof {
        let room = buffer_len - end;
        assert(context_lines * 16 <= room) by (nonlinear_arith)
            requires
                context_lines <= room / 16,
        ;
    }
    let widened_end = end + context_lines * ROW_WIDTH;
    let round_up = if widened_end % ROW_WIDTH == 0 {
        0
    } else {
        ROW_WIDTH - widened_end % ROW_WIDTH
    };
    if round_up > buffer_len - widened_end {
        return Err(ScanError::OutOfBounds { start, end, len: buffer_len });
    }
    Ok(get_context_range(start, end, context_lines))
}

} // verus!
