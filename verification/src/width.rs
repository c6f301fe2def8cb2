//! Visual width of characters as a terminal renders them: tabs expand to
//! four columns, other characters measure what the Unicode width tables
//! give them (zero for combining marks, two for wide glyphs, nothing for
//! control characters).

use vstd::prelude::*;

verus! {

/// What `unicode_width::UnicodeWidthChar::width` returns for `c`: the
/// displayed width in columns, or `None` for a control character. The
/// result depends on the character alone.
pub uninterp spec fn unicode_width_of(c: char) -> Option<usize>;

/// Relies on `unicode_width::UnicodeWidthChar::width`: the result depends
/// on the character alone; printable ASCII has width 1; a measured width
/// is at most 3.
#[verifier::external_body]
fn char_width(c: char) -> (r: Option<usize>)
    ensures
        r == unicode_width_of(c),
        0x20 <= c as u32 <= 0x7e ==> r == Some(1usize),
        r matches Some(w) ==> w <= 3,
{
    unicode_width::UnicodeWidthChar::width(c)
}

/// Visual width of one character in the rendered excerpt: a tab counts
/// for the four columns it is expanded to, anything else for its measured
/// display width, with unmeasurable characters contributing nothing.
pub open spec fn vis_width(c: char) -> nat {
    if c == '\t' {
        4
    } else if 0x20 <= c as u32 <= 0x7e {
        1
    } else {
        match unicode_width_of(c) {
            Some(w) => w as nat,
            None => 0,
        }
    }
}

/// Computes `vis_width` executably; the result never exceeds 4.
pub fn vis_width_exec(c: char) -> (w: usize)
    ensures
        w == vis_width(c),
        w <= 4,
{
    if c == '\t' {
        4
    } else {
        match char_width(c) {
            Some(w) => w,
            None => 0,
        }
    }
}

} // verus!
