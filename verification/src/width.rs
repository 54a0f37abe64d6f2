//! Terminal display widths. A character occupies a small number of columns
//! on screen; the width of a text prefix is the sum over its characters.

use vstd::prelude::*;

verus! {

/// The number of terminal columns that `c` occupies, as unicode-width's
/// table gives it (0 for control characters, which the table declines to
/// measure).
pub uninterp spec fn char_display_width(c: char) -> nat;

/// Relies on `unicode_width::UnicodeWidthChar::width`: a pure table lookup
/// on the character alone; the packed table entries and the special cases
/// it adds on top of them never exceed 3 columns.
#[verifier::external_body]
pub(crate) fn char_width(c: char) -> (w: usize)
    ensures
        w as nat == char_display_width(c),
        w <= 3,
{
    unicode_width::UnicodeWidthChar::width(c).unwrap_or(0)
}

/// Total display width of the first `upto` characters of `s`.
pub open spec fn width_upto(s: Seq<char>, upto: int) -> int
    decreases upto,
{
    if upto <= 0 {
        0
    } else {
        width_upto(s, upto - 1) + char_display_width(s[upto - 1])
    }
}

} // verus!
