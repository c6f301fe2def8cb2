//! Measuring a line for the underline: the tab-expanded copy of the line,
//! and the visual width of the characters whose byte positions fall in a
//! given range. Byte positions within the line are what a token's column
//! counts, so the walk threads a running byte index.

use crate::text::{
    byte_index, byte_len, lemma_byte_index_monotone, lemma_byte_index_step, utf8_len,
    utf8_len_exec,
};
use crate::width::{vis_width, vis_width_exec};
use vstd::prelude::*;
use vstd::string::StrSliceExecFns;

verus! {

/// One character of the rendered line: a tab becomes four spaces, any
/// other character stands as it is.
pub open spec fn expand_char(c: char) -> Seq<char> {
    if c == '\t' {
        seq![' ', ' ', ' ', ' ']
    } else {
        seq![c]
    }
}

/// The line as rendered, with every tab expanded.
pub open spec fn expand_line(l: Seq<char>) -> Seq<char>
    decreases l.len(),
{
    if l.len() == 0 {
        Seq::empty()
    } else {
        expand_char(l[0]) + expand_line(l.drop_first())
    }
}

/// Sum of the visual widths of the characters of `l` whose byte position
/// lies in `[lo, hi)`, when the first character of `l` sits at byte
/// position `i`.
pub open spec fn measure(l: Seq<char>, i: nat, lo: nat, hi: nat) -> nat
    decreases l.len(),
{
    if l.len() == 0 {
        0
    } else {
        (if lo <= i < hi {
            vis_width(l[0])
        } else {
            0
        }) + measure(l.drop_first(), i + utf8_len(l[0]), lo, hi)
    }
}

/// Tab expansion distributes over concatenation.
pub proof fn lemma_expand_line_concat(a: Seq<char>, b: Seq<char>)
    ensures
        expand_line(a + b) == expand_line(a) + expand_line(b),
    decreases a.len(),
{
    if a.len() == 0 {
        assert(a + b =~= b);
        assert(expand_line(a) + expand_line(b) =~= expand_line(b));
    } else {
        assert((a + b).drop_first() =~= a.drop_first() + b);
        lemma_expand_line_concat(a.drop_first(), b);
        assert(expand_char(a[0]) + (expand_line(a.drop_first()) + expand_line(b)) =~= (expand_char(
            a[0],
        ) + expand_line(a.drop_first())) + expand_line(b));
    }
}

/// Extending the measured prefix by one character adds that character's
/// contribution.
pub proof fn lemma_expand_line_snoc(l: Seq<char>, j: int)
    requires
        0 <= j < l.len(),
    ensures
        expand_line(l.take(j + 1)) == expand_line(l.take(j)) + expand_char(l[j]),
{
    assert(l.take(j + 1) =~= l.take(j) + seq![l[j]]);
    lemma_expand_line_concat(l.take(j), seq![l[j]]);
    assert(seq![l[j]].drop_first() =~= Seq::<char>::empty());
    assert(expand_line(seq![l[j]]) == expand_char(l[j]) + expand_line(Seq::<char>::empty()));
    assert(expand_char(l[j]) + Seq::<char>::empty() =~= expand_char(l[j]));
}

/// Unfolds one step of `measure` along the suffixes of `l`.
pub proof fn lemma_measure_step(l: Seq<char>, m: int, i: nat, lo: nat, hi: nat)
    requires
        0 <= m < l.len(),
    ensures
        measure(l.skip(m), i, lo, hi) == (if lo <= i < hi {
            vis_width(l[m])
        } else {
            0
        }) + measure(l.skip(m + 1), i + utf8_len(l[m]), lo, hi),
{
    assert(l.skip(m).drop_first() =~= l.skip(m + 1));
    assert(l.skip(m)[0] == l[m]);
}

/// Walks the characters of `src` between character indices `a` and `b`
/// once, producing the tab-expanded copy of that line together with the
/// visual width of everything before byte column `column` and the visual
/// width of the `width` bytes from that column on.
pub fn measure_line(src: &str, a: usize, b: usize, column: usize, width: usize) -> (r: (
    String,
    usize,
    usize,
))
    requires
        a <= b <= src@.len(),
        4 * byte_len(src@.subrange(a as int, b as int)) <= usize::MAX,
    ensures
        ({
            let l = src@.subrange(a as int, b as int);
            &&& r.0@ == expand_line(l)
            &&& r.1 == measure(l, 0, 0, column as nat)
            &&& r.2 == measure(l, 0, column as nat, column as nat + width as nat)
        }),
{
    let ghost l = src@.subrange(a as int, b as int);
    let mut space_line = String::new();
    let mut space_column: usize = 0;
    let mut space_width: usize = 0;
    let mut i: usize = 0;
    let mut j: usize = a;
    proof {
        assert(l.skip(0) =~= l);
        assert(l.take(0) =~= Seq::<char>::empty());
    }
    while j < b
        invariant
            a <= j <= b <= src@.len(),
            l == src@.subrange(a as int, b as int),
            4 * byte_len(l) <= usize::MAX,
            i == byte_index(l, j - a),
            space_column <= 4 * i,
            space_width <= 4 * i,
            space_column + measure(l.skip(j - a), i as nat, 0, column as nat) == measure(
                l,
                0,
                0,
                column as nat,
            ),
            space_width + measure(l.skip(j - a), i as nat, column as nat, (column + width) as nat) == measure(
                l,
                0,
                column as nat,
                (column + width) as nat,
            ),
            space_line@ == expand_line(l.take(j - a)),
        decreases b - j,
    {
        let ghost m = j - a;
        let c = src.get_char(j);
        let w = vis_width_exec(c);
        let cl = utf8_len_exec(c);
        proof {
            assert(l[m] == c);
            lemma_measure_step(l, m, i as nat, 0, column as nat);
            lemma_measure_step(l, m, i as nat, column as nat, (column + width) as nat);
            lemma_expand_line_snoc(l, m);
            lemma_byte_index_step(l, m);
            lemma_byte_index_monotone(l, m + 1, l.len() as int);
        }
        if c == '\t' {
            space_line.push(' ');
            space_line.push(' ');
            space_line.push(' ');
            space_line.push(' ');
        } else {
            space_line.push(c);
        }
        proof {
            assert(space_line@ =~= expand_line(l.take(m)) + expand_char(l[m]));
        }
        if i < column {
            space_column = space_column + w;
        } else if i - column < width {
            space_width = space_width + w;
        }
        i = i + cl;
        j = j + 1;
    }
    proof {
        assert(l.skip(l.len() as int) =~= Seq::<char>::empty());
        assert(l.take(l.len() as int) =~= l);
    }
    (space_line, space_column, space_width)
}

/// The measure of a span that begins at or past the end of the walk's
/// remaining byte range is zero once no byte position can reach it; in
/// particular a walk that has passed `hi` adds nothing more.
pub proof fn lemma_measure_past(l: Seq<char>, i: nat, lo: nat, hi: nat)
    requires
        i >= hi,
    ensures
        measure(l, i, lo, hi) == 0,
    decreases l.len(),
{
    if l.len() > 0 {
        lemma_measure_past(l.drop_first(), i + utf8_len(l[0]), lo, hi);
    }
}

/// An empty byte range measures zero.
pub proof fn lemma_measure_empty_range(l: Seq<char>, i: nat, lo: nat, hi: nat)
    requires
        hi <= lo,
    ensures
        measure(l, i, lo, hi) == 0,
    decreases l.len(),
{
    if l.len() > 0 {
        lemma_measure_empty_range(l.drop_first(), i + utf8_len(l[0]), lo, hi);
    }
}

/// The lower bound of the byte range does not matter once the walk has
/// reached it: every remaining byte position is at least `i`.
pub proof fn lemma_measure_lo_irrelevant(l: Seq<char>, i: nat, lo1: nat, lo2: nat, hi: nat)
    requires
        lo1 <= i,
        lo2 <= i,
    ensures
        measure(l, i, lo1, hi) == measure(l, i, lo2, hi),
    decreases l.len(),
{
    if l.len() > 0 {
        lemma_measure_lo_irrelevant(l.drop_first(), i + utf8_len(l[0]), lo1, lo2, hi);
    }
}

/// A byte range that begins and ends on character boundaries and covers
/// only one-byte characters of visual width one measures exactly its
/// character count, which is its byte width.
pub proof fn lemma_span_measure(l: Seq<char>, i: nat, j: int, k: int, lo: nat, hi: nat)
    requires
        0 <= j <= k <= l.len(),
        i + byte_index(l, j) == lo,
        i + byte_index(l, k) == hi,
        forall|t: int| j <= t < k ==> utf8_len(l[t]) == 1 && vis_width(l[t]) == 1,
    ensures
        measure(l, i, lo, hi) == k - j,
    decreases l.len(),
{
    if j == k {
        lemma_measure_empty_range(l, i, lo, hi);
    } else if j == 0 {
        assert(utf8_len(l[0]) == 1 && vis_width(l[0]) == 1);
        assert(lo == i && i < hi) by {
            crate::text::lemma_byte_index_strict(l, 0, k);
        }
        let d = l.drop_first();
        assert(byte_index(l, k) == utf8_len(l[0]) + byte_index(d, k - 1));
        assert(forall|t: int| 0 <= t < k - 1 ==> d[t] == l[t + 1] && utf8_len(l[t + 1]) == 1
            && vis_width(l[t + 1]) == 1);
        lemma_span_measure(d, i + 1, 0, k - 1, (i + 1) as nat, hi);
        lemma_measure_lo_irrelevant(d, i + 1, (i + 1) as nat, lo, hi);
    } else {
        crate::text::lemma_byte_index_ge(l, j);
        assert(i < lo);
        let d = l.drop_first();
        assert(byte_index(l, j) == utf8_len(l[0]) + byte_index(d, j - 1));
        assert(byte_index(l, k) == utf8_len(l[0]) + byte_index(d, k - 1));
        assert(forall|t: int| j - 1 <= t < k - 1 ==> d[t] == l[t + 1] && utf8_len(l[t + 1]) == 1
            && vis_width(l[t + 1]) == 1);
        lemma_span_measure(d, i + utf8_len(l[0]), j - 1, k - 1, lo, hi);
    }
}

/// Measures a single character: the one whose byte position is exactly
/// the start of a one-byte-wide range contributes its visual width, and
/// nothing else contributes.
pub proof fn lemma_point_measure(l: Seq<char>, i: nat, j: int, col: nat)
    requires
        0 <= j < l.len(),
        i + byte_index(l, j) == col,
    ensures
        measure(l, i, col, col + 1) == vis_width(l[j]),
    decreases l.len(),
{
    if j == 0 {
        assert(i == col);
        lemma_measure_past(l.drop_first(), i + utf8_len(l[0]), col, col + 1);
    } else {
        crate::text::lemma_byte_index_ge(l, j);
        assert(i < col);
        let d = l.drop_first();
        assert(byte_index(l, j) == utf8_len(l[0]) + byte_index(d, j - 1));
        lemma_point_measure(d, i + utf8_len(l[0]), j - 1, col);
    }
}

/// Replacing one character by another of the same byte length leaves
/// every byte position in place and changes the measure only by the
/// difference of the two visual widths, and only when the replaced
/// character's byte position lies inside the measured range.
pub proof fn lemma_measure_update(l: Seq<char>, c: char, i: nat, j: int, lo: nat, hi: nat)
    requires
        0 <= j < l.len(),
        utf8_len(l[j]) == utf8_len(c),
    ensures
        ({
            let pos = i + byte_index(l, j);
            if lo <= pos < hi {
                measure(l.update(j, c), i, lo, hi) + vis_width(l[j]) == measure(l, i, lo, hi)
                    + vis_width(c)
            } else {
                measure(l.update(j, c), i, lo, hi) == measure(l, i, lo, hi)
            }
        }),
    decreases l.len(),
{
    let u = l.update(j, c);
    if j == 0 {
        assert(u.drop_first() =~= l.drop_first());
        assert(u[0] == c);
    } else {
        assert(u[0] == l[0]);
        assert(u.drop_first() =~= l.drop_first().update(j - 1, c));
        assert(byte_index(l, j) == utf8_len(l[0]) + byte_index(l.drop_first(), j - 1));
        lemma_measure_update(l.drop_first(), c, i + utf8_len(l[0]), j - 1, lo, hi);
    }
}

} // verus!
