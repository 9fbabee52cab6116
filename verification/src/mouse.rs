//! Decisions of the cursor-position command: which platform errors are
//! worth retrying after the machine wakes from sleep, and where a window's
//! center lies for the fallback position.

use vstd::prelude::*;
use crate::text::contains_seq;
use crate::text::contains_sub;
use crate::text::lower_seq;
use crate::text::str_to_chars;
use crate::text::to_lower_chars;

verus! {

/// A cursor-position failure that is transient after sleep: an
/// access-denied error, recognized by its code or by its text (ASCII
/// case-insensitively).
pub open spec fn is_transient_cursor_error_spec(e: Seq<char>) -> bool {
    contains_seq(e, "0x80070005"@) || contains_seq(lower_seq(e), "access is denied"@)
}

/// Whether the error text `e` reports a transient access-denied failure, as
/// `is_transient_cursor_error_spec` describes.
pub fn is_transient_cursor_error(e: &str) -> (r: bool)
    ensures
        r == is_transient_cursor_error_spec(e@),
{
    let chars = str_to_chars(e);
    let code = str_to_chars("0x80070005");
    if contains_sub(&chars, &code) {
        return true;
    }
    let low = to_lower_chars(&chars);
    let needle = str_to_chars("access is denied");
    contains_sub(&low, &needle)
}

/// The center of a window at `(x, y)` with size `w` by `h`, where the
/// cursor is parked when its real position cannot be read.
pub fn window_center(x: i32, y: i32, w: u32, h: u32) -> (r: (i32, i32))
    requires
        w <= i32::MAX,
        h <= i32::MAX,
        i32::MIN <= x + w / 2 <= i32::MAX,
        i32::MIN <= y + h / 2 <= i32::MAX,
    ensures
        r.0 == x + w / 2,
        r.1 == y + h / 2,
{
    let cx = x + (w as i32) / 2;
    let cy = y + (h as i32) / 2;
    (cx, cy)
}

} // verus!
