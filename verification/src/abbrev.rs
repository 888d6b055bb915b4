//! The abbreviation engine: truncate a string to a maximum display width,
//! inserting a marker where content was elided, optionally centering the
//! visible window around an offset into the original string.
//!
//! All widths and positions count Unicode scalar values (codepoints).
//! The algorithm is modelled by [`spec_abbreviate_full`]; the executable
//! entry points return exactly what that model says, or the
//! `InvalidArgument` error precisely where the model yields `None`.

use vstd::prelude::*;
use vstd::string::*;

use crate::error::{UtilsError, UtilsResult};

verus! {

/// The smaller of two integers.
pub open spec fn spec_min(a: int, b: int) -> int {
    if a <= b {
        a
    } else {
        b
    }
}

/// Mathematical model of the full abbreviation algorithm.
///
/// `None` stands for the one failure mode, `InvalidArgument`: the requested
/// width leaves no room for the marker plus at least one character (or, once
/// the left side must also be elided, no room for the marker on both sides).
///
/// The phases, in order:
/// 1. non-empty text, empty marker, positive width: marker-less hard
///    truncation to the first `max_width` codepoints;
/// 2. empty text or empty marker: no-op;
/// 3. width smaller than `marker + 1`: infeasible;
/// 4. text already fits: no-op;
/// 5. clamp the offset into `[0, len]`, then slide it left so the window
///    `[offset, len)` fills the remaining budget `max_width - marker_len`;
/// 6. offset small enough that the left side needs no eliding: window at the
///    start of the text, marker trailing;
/// 7. the left side must be elided: width smaller than `2*marker + 1` is
///    infeasible;
/// 8. content continues past the window on the right too: recursively
///    abbreviate the suffix with a budget reduced by the marker length and
///    prepend the marker;
/// 9. otherwise a right-anchored window with the marker leading.
pub open spec fn spec_abbreviate_full(
    text: Seq<char>,
    marker: Seq<char>,
    offset: int,
    max_width: int,
) -> Option<Seq<char>>
    decreases text.len(),
{
    let n = text.len() as int;
    let m = marker.len() as int;
    if n > 0 && m == 0 && max_width > 0 {
        Some(text.take(spec_min(max_width, n)))
    } else if n == 0 || m == 0 {
        Some(text)
    } else if max_width < m + 1 {
        None
    } else if n <= max_width {
        Some(text)
    } else {
        let clamped = if offset < 0 {
            0
        } else if offset > n {
            n
        } else {
            offset
        };
        let off = if n - clamped < max_width - m {
            n - (max_width - m)
        } else {
            clamped
        };
        if off <= m + 1 {
            Some(text.take(max_width - m) + marker)
        } else if max_width < 2 * m + 1 {
            None
        } else if off + (max_width - m) < n {
            match spec_abbreviate_full(text.skip(off), marker, 0, max_width - m) {
                Some(rest) => Some(marker + rest),
                None => None,
            }
        } else {
            Some(marker + text.skip(n - (max_width - m)))
        }
    }
}

/// Abbreviates `text` to at most `max_width` codepoints, eliding content with
/// `marker` and keeping the window of interest around `offset` visible.
///
/// Returns exactly the string the model [`spec_abbreviate_full`] describes,
/// and fails with `InvalidArgument` exactly where the model yields `None`.
pub fn abbreviate_full(text: &str, marker: &str, offset: isize, max_width: usize) -> (r:
    UtilsResult<String>)
    ensures
        ({
            let model = spec_abbreviate_full(text@, marker@, offset as int, max_width as int);
            match r {
                Ok(out) => model == Some(out@),
                Err(e) => model is None && e is InvalidArgument,
            }
        }),
    decreases text@.len(),
{
    let n = text.unicode_len();
    let m = marker.unicode_len();
    if n > 0 && m == 0 && max_width > 0 {
        let k = if max_width < n {
            max_width
        } else {
            n
        };
        return Ok(text.substring_char(0, k).to_owned());
    }
    if n == 0 || m == 0 {
        return Ok(text.to_owned());
    }
    if max_width <= m {
        return Err(
            UtilsError::InvalidArgument(
                String::from_str("the abbreviation width must exceed the marker length"),
            ),
        );
    }
    if n <= max_width {
        return Ok(text.to_owned());
    }
    let clamped: usize = if offset < 0 {
        0
    } else {
        let o = offset as usize;
        if o > n {
            n
        } else {
            o
        }
    };
    let w = max_width - m;
    let off: usize = if n - clamped < w {
        n - w
    } else {
        clamped
    };
    if off <= m + 1 {
        let mut s = text.substring_char(0, w).to_owned();
        s.append(marker);
        return Ok(s);
    }
    if w <= m {
        return Err(
            UtilsError::InvalidArgument(
                String::from_str(
                    "the abbreviation width must exceed twice the marker length when the offset forces eliding on both sides",
                ),
            ),
        );
    }
    if off < n - w {
        let tail = text.substring_char(off, n);
        match abbreviate_full(tail, marker, 0, w) {
            Ok(rest) => {
                let mut s = marker.to_owned();
                s.append(rest.as_str());
                Ok(s)
            },
            Err(e) => Err(e),
        }
    } else {
        let mut s = marker.to_owned();
        s.append(text.substring_char(n - w, n));
        Ok(s)
    }
}

/// Abbreviates `text` to at most `max_width` codepoints with the default
/// marker `"..."` and a left-anchored window.
pub fn abbreviate(text: &str, max_width: usize) -> (r: UtilsResult<String>)
    ensures
        ({
            let model = spec_abbreviate_full(text@, "..."@, 0, max_width as int);
            match r {
                Ok(out) => model == Some(out@),
                Err(e) => model is None && e is InvalidArgument,
            }
        }),
{
    abbreviate_full(text, "...", 0, max_width)
}

/// Abbreviates `text` to at most `max_width` codepoints with a caller-chosen
/// marker and a left-anchored window.
pub fn abbreviate_with_marker(text: &str, marker: &str, max_width: usize) -> (r: UtilsResult<
    String,
>)
    ensures
        ({
            let model = spec_abbreviate_full(text@, marker@, 0, max_width as int);
            match r {
                Ok(out) => model == Some(out@),
                Err(e) => model is None && e is InvalidArgument,
            }
        }),
{
    abbreviate_full(text, marker, 0, max_width)
}

/// Law: an abbreviation never exceeds the requested width.
///
/// Whenever the model succeeds, the produced string has at most `max_width`
/// codepoints.  The one family of inputs on which this cannot hold is left
/// out by the second precondition: a non-empty text with an empty marker and
/// a zero width is returned unchanged by the no-op phase, so its length
/// exceeds the width.
pub proof fn lemma_abbreviate_full_fits(
    text: Seq<char>,
    marker: Seq<char>,
    offset: int,
    max_width: int,
)
    requires
        max_width >= 0,
        !(text.len() > 0 && marker.len() == 0 && max_width == 0),
    ensures
        spec_abbreviate_full(text, marker, offset, max_width) matches Some(out) ==> out.len()
            <= max_width,
    decreases text.len(),
{
    let n = text.len() as int;
    let m = marker.len() as int;
    if n > 0 && m >= 1 && max_width >= m + 1 && n > max_width {
        let clamped = if offset < 0 {
            0
        } else if offset > n {
            n
        } else {
            offset
        };
        let off = if n - clamped < max_width - m {
            n - (max_width - m)
        } else {
            clamped
        };
        if off > m + 1 && max_width >= 2 * m + 1 && off + (max_width - m) < n {
            lemma_abbreviate_full_fits(text.skip(off), marker, 0, max_width - m);
        }
    }
}

/// Law: a text that already fits is returned unchanged.
///
/// Whenever the text has at most `max_width` codepoints — and the width can
/// hold the marker plus one character, or the text or marker is empty — the
/// model succeeds with the text itself.
pub proof fn lemma_abbreviate_full_noop(
    text: Seq<char>,
    marker: Seq<char>,
    offset: int,
    max_width: int,
)
    requires
        text.len() <= max_width,
        text.len() == 0 || marker.len() == 0 || max_width >= marker.len() + 1,
    ensures
        spec_abbreviate_full(text, marker, offset, max_width) == Some(text),
{
    if text.len() > 0 && marker.len() == 0 && max_width > 0 {
        assert(text.take(text.len() as int) =~= text);
    }
}

/// Law: any text that fits within the requested width is returned unchanged
/// by the default abbreviation, provided the width can hold the default
/// marker plus one character (or the text is empty; a shorter width is
/// rejected before the length check).
pub proof fn lemma_abbreviate_noop(text: Seq<char>, max_width: int)
    requires
        text.len() <= max_width,
        max_width >= 4 || text.len() == 0,
    ensures
        spec_abbreviate_full(text, "..."@, 0, max_width) == Some(text),
{
    reveal_strlit("...");
    lemma_abbreviate_full_noop(text, "..."@, 0, max_width);
}

/// Law: a width below the marker length plus one is always rejected.
///
/// For a non-empty text and non-empty marker, the model fails whenever
/// `max_width < marker.len() + 1` — a marker alone, with no room for any
/// real content, is a configuration error.
pub proof fn lemma_abbreviate_full_infeasible_width(
    text: Seq<char>,
    marker: Seq<char>,
    offset: int,
    max_width: int,
)
    requires
        text.len() > 0,
        marker.len() > 0,
        max_width < marker.len() + 1,
    ensures
        spec_abbreviate_full(text, marker, offset, max_width) is None,
{
}

/// Law: abbreviation is idempotent.
///
/// Abbreviating an already-abbreviated string with the same parameters
/// yields that string again — re-applying never shrinks the result further.
pub proof fn lemma_abbreviate_full_idempotent(
    text: Seq<char>,
    marker: Seq<char>,
    offset: int,
    max_width: int,
    out: Seq<char>,
)
    requires
        spec_abbreviate_full(text, marker, offset, max_width) == Some(out),
    ensures
        spec_abbreviate_full(out, marker, offset, max_width) == Some(out),
{
    let n = text.len() as int;
    let m = marker.len() as int;
    if n > 0 && m == 0 && max_width > 0 {
        assert(out =~= text.take(spec_min(max_width, n)));
        assert(out.take(out.len() as int) =~= out);
    } else if n == 0 || m == 0 {
    } else if n <= max_width {
    } else {
        let clamped = if offset < 0 {
            0
        } else if offset > n {
            n
        } else {
            offset
        };
        let off = if n - clamped < max_width - m {
            n - (max_width - m)
        } else {
            clamped
        };
        if off > m + 1 && max_width >= 2 * m + 1 && off + (max_width - m) < n {
            lemma_abbreviate_full_fits(text.skip(off), marker, 0, max_width - m);
        }
    }
}

} // verus!
