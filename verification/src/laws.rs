//! Laws of the renderer, stated over the same spec functions that the
//! executable functions' contracts use and proved once and for all.

use crate::lines::lines_spec;
use crate::measure::{
    lemma_measure_update, lemma_point_measure, lemma_span_measure, measure,
};
use crate::render::{internal_error_note, render_ok, render_spec};
use crate::text::{byte_index, byte_len, lemma_byte_index_all_unit, utf8_len};
use crate::width::vis_width;
use vstd::prelude::*;

verus! {

/// A zero-length token still highlights one visual column: when a
/// character of visual width one begins exactly at the token's column,
/// the rendered underline is exactly one column wide.
pub proof fn law_zero_length_underline(
    src: Seq<char>,
    offset: nat,
    line: nat,
    column: nat,
    j: int,
    prefix: Seq<char>,
    suffix: Seq<char>,
)
    requires
        line < lines_spec(src).len(),
        0 <= j < lines_spec(src)[line as int].len(),
        byte_index(lines_spec(src)[line as int], j) == column,
        vis_width(lines_spec(src)[line as int][j]) == 1,
    ensures
        ({
            let l = lines_spec(src)[line as int];
            &&& render_spec(src, offset, 0, line, column, prefix, suffix) == render_ok(
                l,
                line + 1,
                column,
                1,
                prefix,
                suffix,
            )
            &&& measure(l, 0, column, column + 1) == 1
        }),
{
    let l = lines_spec(src)[line as int];
    lemma_point_measure(l, 0, j, column);
}

/// On a line of printable ASCII characters, visual columns coincide with
/// byte columns: the underline is indented by exactly the token's column
/// and is exactly the token's length wide.
pub proof fn law_ascii_columns(l: Seq<char>, column: nat, length: nat)
    requires
        forall|t: int| 0 <= t < l.len() ==> 0x20 <= #[trigger] (l[t] as u32) <= 0x7e,
        column + length <= l.len(),
        1 <= length,
    ensures
        measure(l, 0, 0, column) == column,
        measure(l, 0, column, column + length) == length,
{
    assert(forall|t: int| 0 <= t < l.len() ==> utf8_len(#[trigger] l[t]) == 1 && vis_width(l[t])
        == 1);
    lemma_byte_index_all_unit(l, column as int);
    lemma_byte_index_all_unit(l, (column + length) as int);
    lemma_span_measure(l, 0, 0, column as int, 0, column);
    lemma_span_measure(l, 0, column as int, (column + length) as int, column, column + length);
}

/// Replacing a one-byte character that stands before the token's column
/// by a tab widens the indentation by four columns less the replaced
/// character's own visual width, and leaves every byte position in place.
pub proof fn law_tab_shift(l: Seq<char>, j: int, column: nat)
    requires
        0 <= j < l.len(),
        utf8_len(l[j]) == 1,
        byte_index(l, j) < column,
    ensures
        measure(l.update(j, '\t'), 0, 0, column) + vis_width(l[j]) == measure(l, 0, 0, column)
            + 4,
{
    assert(utf8_len('\t') == 1);
    lemma_measure_update(l, '\t', 0, j, 0, column);
    assert(vis_width('\t') == 4);
}

/// A token that points exactly at the end of the input, on a line the
/// source does not have, renders nothing at all.
pub proof fn law_end_of_input_silent(
    src: Seq<char>,
    offset: nat,
    length: nat,
    line: nat,
    column: nat,
    prefix: Seq<char>,
    suffix: Seq<char>,
)
    requires
        line >= lines_spec(src).len(),
        offset == byte_len(src),
    ensures
        render_spec(src, offset, length, line, column, prefix, suffix) == Seq::<char>::empty(),
{
}

/// A token that names a line the source does not have, without pointing
/// at the end of the input, renders the visible internal-error note — the
/// renderer degrades, it never aborts.
pub proof fn law_invalid_line_marked(
    src: Seq<char>,
    offset: nat,
    length: nat,
    line: nat,
    column: nat,
    prefix: Seq<char>,
    suffix: Seq<char>,
)
    requires
        line >= lines_spec(src).len(),
        offset != byte_len(src),
    ensures
        render_spec(src, offset, length, line, column, prefix, suffix) == internal_error_note(
            line + 1,
        ),
{
}

/// Round trip: when every character under the token's span is one byte
/// long and one visual column wide, the underline between the color
/// prefix and suffix is exactly `length` characters wide — one for a
/// zero-length token — so counting them recovers the token's span.
pub proof fn law_round_trip_underline(
    src: Seq<char>,
    offset: nat,
    length: nat,
    line: nat,
    column: nat,
    j: int,
    k: int,
    prefix: Seq<char>,
    suffix: Seq<char>,
)
    requires
        line < lines_spec(src).len(),
        ({
            let l = lines_spec(src)[line as int];
            let width: nat = if length == 0 {
                1
            } else {
                length
            };
            &&& 0 <= j <= k <= l.len()
            &&& byte_index(l, j) == column
            &&& byte_index(l, k) == column + width
            &&& forall|t: int| j <= t < k ==> utf8_len(#[trigger] l[t]) == 1 && vis_width(l[t])
                == 1
        }),
    ensures
        ({
            let l = lines_spec(src)[line as int];
            let width: nat = if length == 0 {
                1
            } else {
                length
            };
            &&& render_spec(src, offset, length, line, column, prefix, suffix) == render_ok(
                l,
                line + 1,
                column,
                width,
                prefix,
                suffix,
            )
            &&& measure(l, 0, column, column + width) == width
        }),
{
    let l = lines_spec(src)[line as int];
    let width: nat = if length == 0 {
        1
    } else {
        length
    };
    lemma_span_measure(l, 0, j, k, column, column + width);
    crate::text::lemma_byte_index_unit_range(l, j, k);
}

} // verus!
