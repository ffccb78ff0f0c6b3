//! Display width of characters.

use crate::text::is_control_char;
use unicode_width::UnicodeWidthChar;
use vstd::prelude::*;

verus! {

/// The displayed width of a character as the Unicode tables give it.
pub uninterp spec fn unicode_width_of(c: char) -> Option<usize>;

/// `unicode_width::UnicodeWidthChar::width`. The result is a function of the
/// character, read from generated tables: no width for a control character,
/// one column for printable ASCII, and never more than three columns.
#[verifier::external_body]
fn char_width(c: char) -> (r: Option<usize>)
    ensures
        r == unicode_width_of(c),
        r is None <==> is_control_char(c),
        ' ' <= c <= '~' ==> r == Some(1usize),
        r matches Some(w) ==> w <= 3,
{
    UnicodeWidthChar::width(c)
}

/// How many columns a character takes up for a given table entry: at least
/// one, so that a zero-width or control character cannot stall the pen.
pub open spec fn columns(table: Option<usize>) -> nat {
    match table {
        Some(w) => if w >= 1 {
            w as nat
        } else {
            1
        },
        None => 1,
    }
}

/// How many columns a character takes up in the grid.
pub open spec fn cell_width(c: char) -> nat {
    columns(unicode_width_of(c))
}

/// Columns for a table entry.
pub fn columns_of(table: Option<usize>) -> (w: usize)
    ensures
        w == columns(table),
{
    match table {
        Some(w) => if w >= 1 {
            w
        } else {
            1
        },
        None => 1,
    }
}

/// Terminal display width of a character (CJK and Hangul take two columns).
pub fn cw(c: char) -> (w: usize)
    ensures
        w == cell_width(c),
        1 <= w <= 3,
        is_control_char(c) || ' ' <= c <= '~' ==> w == 1,
{
    columns_of(char_width(c))
}

} // verus!
