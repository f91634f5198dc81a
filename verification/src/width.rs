//! Display widths of characters and strings in terminal columns, from the
//! `unicode-width` crate.

use vstd::prelude::*;

verus! {

/// The displayed width of a character in columns, or none for a control character.
pub uninterp spec fn char_width(c: char) -> Option<usize>;

/// The displayed width of a string in columns.
pub uninterp spec fn str_width(s: Seq<char>) -> usize;

/// `UnicodeWidthChar::width`: the width from the crate's tables, at most
/// three columns; the control characters below U+0020 and from U+007F
/// below U+00A0 have none, and the other ASCII characters take one column.
#[verifier::external_body]
pub(crate) fn char_width_exec(c: char) -> (w: Option<usize>)
    ensures
        w == char_width(c),
        w matches Some(x) ==> x <= 3,
        (c as u32) < 0x20 || (0x7f <= (c as u32) && (c as u32) < 0xa0) ==> w is None,
        0x20 <= (c as u32) && (c as u32) < 0x7f ==> w == Some(1usize),
{
    unicode_width::UnicodeWidthChar::width(c)
}

/// `UnicodeWidthStr::width`.
#[verifier::external_body]
pub(crate) fn str_width_exec(s: &str) -> (w: usize)
    ensures
        w == str_width(s@),
{
    unicode_width::UnicodeWidthStr::width(s)
}

} // verus!
