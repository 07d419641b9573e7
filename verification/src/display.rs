//! Pure display computations for a viewer of the decoded document:
//! date formatting and table-selection arithmetic.  Everything that
//! touches the terminal stays outside the library; these functions only
//! compute.

use vstd::prelude::*;
use vstd::string::StrSliceExecFns;
use vstd::string::StringExecFns;

verus! {

/// Renders a `YYYYMMDD...` digit string as `YYYY-MM-DD`; anything
/// shorter than 8 characters is passed through unchanged.
pub fn human_date(yyyymmdd: &str) -> (r: String)
    ensures
        yyyymmdd@.len() >= 8 ==> r@ == yyyymmdd@.subrange(0, 4) + "-"@ + yyyymmdd@.subrange(4, 6)
            + "-"@ + yyyymmdd@.subrange(6, 8),
        yyyymmdd@.len() < 8 ==> r@ == yyyymmdd@,
{
    let len = yyyymmdd.unicode_len();
    if len >= 8 {
        let mut out = yyyymmdd.substring_char(0, 4).to_owned();
        out.append("-");
        out.append(yyyymmdd.substring_char(4, 6));
        out.append("-");
        out.append(yyyymmdd.substring_char(6, 8));
        out
    } else {
        yyyymmdd.to_owned()
    }
}

/// Moves the table selection to `index`, clamped into the row count,
/// and scrolls just enough to keep the selected row inside a viewport
/// of `viewport` rows starting at `scroll`.
pub fn select_position(len: usize, index: usize, scroll: usize, viewport: usize) -> (r: (
    usize,
    usize,
))
    ensures
        r.0 == if len == 0 {
            0int
        } else if index < len {
            index as int
        } else {
            len - 1
        },
        r.1 == if r.0 < scroll {
            r.0 as int
        } else if r.0 >= scroll + viewport {
            r.0 + 1 - viewport
        } else {
            scroll as int
        },
{
    let max: usize = if len == 0 {
        0
    } else {
        len - 1
    };
    let idx: usize = if index < max {
        index
    } else {
        max
    };
    let new_scroll: usize = if idx < scroll {
        idx
    } else if viewport <= idx && idx - viewport >= scroll {
        idx + 1 - viewport
    } else {
        scroll
    };
    (idx, new_scroll)
}

} // verus!
