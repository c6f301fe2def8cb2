//! The shape of a rendered excerpt: a blank gutter line, the numbered
//! source line with tabs expanded, and a gutter line carrying the colored
//! underline. The underline is padded to the visual column where the
//! token starts and filled for the token's visual width.

use crate::lines::lines_spec;
use crate::measure::{expand_line, measure};
use crate::text::byte_len;
use vstd::prelude::*;

verus! {

/// Relies on `String::push`: appends the character to the end of the
/// string.
pub assume_specification[ String::push ](s: &mut String, c: char)
    ensures
        final(s)@ == old(s)@.push(c),
;

/// The character for one decimal digit.
pub open spec fn digit_char(d: nat) -> char {
    if d == 0 {
        '0'
    } else if d == 1 {
        '1'
    } else if d == 2 {
        '2'
    } else if d == 3 {
        '3'
    } else if d == 4 {
        '4'
    } else if d == 5 {
        '5'
    } else if d == 6 {
        '6'
    } else if d == 7 {
        '7'
    } else if d == 8 {
        '8'
    } else {
        '9'
    }
}

/// The decimal digits of `n`, most significant first, with no leading
/// zeros (a single `'0'` for zero).
pub open spec fn decimal_digits(n: nat) -> Seq<char>
    decreases n,
{
    if n < 10 {
        seq![digit_char(n)]
    } else {
        decimal_digits(n / 10).push(digit_char(n % 10))
    }
}

/// `n` copies of `c`.
pub open spec fn repeat_char(c: char, n: nat) -> Seq<char> {
    Seq::new(n, |i: int| c)
}

/// The rendered excerpt for line content `l` shown under 1-based line
/// number `ln`, with the underline placed for a token at byte column
/// `column` spanning `width` bytes, wrapped in the color `prefix` and
/// `suffix`.
pub open spec fn render_ok(
    l: Seq<char>,
    ln: nat,
    column: nat,
    width: nat,
    prefix: Seq<char>,
    suffix: Seq<char>,
) -> Seq<char> {
    let g = repeat_char(' ', decimal_digits(ln).len());
    g + seq![' ', '|', '\n'] + decimal_digits(ln) + seq![' ', '|', ' '] + expand_line(l)
        + seq!['\n'] + g + seq![' ', '|', ' '] + repeat_char(' ', measure(l, 0, 0, column)) + prefix
        + repeat_char('^', measure(l, 0, column, column + width)) + suffix
}

/// The note emitted when a token names a line the source does not have:
/// a visible marker instead of an excerpt, never a crash.
pub open spec fn internal_error_note(ln: nat) -> Seq<char> {
    "internal error: Error has invalid line number: "@ + decimal_digits(ln)
}

/// Everything the renderer emits for a token at byte offset `offset`, of
/// byte length `length`, on 0-based line `line` at byte column `column`
/// of that line, within source text `src`: the excerpt when the line
/// exists, nothing when the token legitimately points at the end of the
/// input, and the internal-error note otherwise. A zero-length token is
/// underlined as if it were one byte wide.
pub open spec fn render_spec(
    src: Seq<char>,
    offset: nat,
    length: nat,
    line: nat,
    column: nat,
    prefix: Seq<char>,
    suffix: Seq<char>,
) -> Seq<char> {
    let width: nat = if length == 0 {
        1
    } else {
        length
    };
    let ls = lines_spec(src);
    if line < ls.len() {
        render_ok(ls[line as int], line + 1, column, width, prefix, suffix)
    } else if offset == byte_len(src) {
        Seq::empty()
    } else {
        internal_error_note(line + 1)
    }
}

/// Appends one decimal digit's character.
fn push_digit(out: &mut String, d: usize)
    requires
        d < 10,
    ensures
        final(out)@ == old(out)@.push(digit_char(d as nat)),
{
    let c = if d == 0 {
        '0'
    } else if d == 1 {
        '1'
    } else if d == 2 {
        '2'
    } else if d == 3 {
        '3'
    } else if d == 4 {
        '4'
    } else if d == 5 {
        '5'
    } else if d == 6 {
        '6'
    } else if d == 7 {
        '7'
    } else if d == 8 {
        '8'
    } else {
        '9'
    };
    out.push(c);
}

/// Appends the decimal digits of `n`.
pub fn push_decimal(out: &mut String, n: usize)
    ensures
        final(out)@ == old(out)@ + decimal_digits(n as nat),
    decreases n,
{
    if n < 10 {
        push_digit(out, n);
        proof {
            assert(old(out)@ + decimal_digits(n as nat) =~= old(out)@.push(
                digit_char(n as nat),
            ));
        }
    } else {
        push_decimal(out, n / 10);
        push_digit(out, n % 10);
        proof {
            assert(old(out)@ + decimal_digits(n as nat) =~= (old(out)@ + decimal_digits(
                (n / 10) as nat,
            )).push(digit_char((n % 10) as nat)));
        }
    }
}

/// Renders the full excerpt for the line between character indices `a`
/// and `b` of `src`, shown under 1-based line number `ln`, with the
/// underline placed for byte column `column` and byte width `width`.
pub fn render_excerpt(
    src: &str,
    a: usize,
    b: usize,
    ln: usize,
    column: usize,
    width: usize,
    color_prefix: &str,
    color_suffix: &str,
) -> (out: String)
    requires
        a <= b <= src@.len(),
        4 * byte_len(src@.subrange(a as int, b as int)) <= usize::MAX,
    ensures
        out@ == render_ok(
            src@.subrange(a as int, b as int),
            ln as nat,
            column as nat,
            width as nat,
            color_prefix@,
            color_suffix@,
        ),
{
    let ghost l = src@.subrange(a as int, b as int);
    let ghost digits = decimal_digits(ln as nat);
    let ghost g = repeat_char(' ', digits.len());
    let (space_line, space_column, space_width) = crate::measure::measure_line(
        src,
        a,
        b,
        column,
        width,
    );
    let mut num = String::new();
    push_decimal(&mut num, ln);
    let w = num.as_str().unicode_len();
    let mut out = String::new();
    push_repeat(&mut out, ' ', w);
    out.push(' ');
    out.push('|');
    out.push('\n');
    proof {
        assert(out@ =~= g + seq![' ', '|', '\n']);
    }
    let ghost e1 = g + seq![' ', '|', '\n'];
    out.append(num.as_str());
    let ghost e2 = e1 + digits;
    out.push(' ');
    out.push('|');
    out.push(' ');
    proof {
        assert(out@ =~= e2 + seq![' ', '|', ' ']);
    }
    let ghost e3 = e2 + seq![' ', '|', ' '];
    out.append(space_line.as_str());
    let ghost e4 = e3 + expand_line(l);
    out.push('\n');
    proof {
        assert(out@ =~= e4 + seq!['\n']);
    }
    let ghost e5 = e4 + seq!['\n'];
    push_repeat(&mut out, ' ', w);
    let ghost e6 = e5 + g;
    out.push(' ');
    out.push('|');
    out.push(' ');
    proof {
        assert(out@ =~= e6 + seq![' ', '|', ' ']);
    }
    let ghost e7 = e6 + seq![' ', '|', ' '];
    push_repeat(&mut out, ' ', space_column);
    let ghost e8 = e7 + repeat_char(' ', measure(l, 0, 0, column as nat));
    out.append(color_prefix);
    let ghost e9 = e8 + color_prefix@;
    push_repeat(&mut out, '^', space_width);
    let ghost e10 = e9 + repeat_char(
        '^',
        measure(l, 0, column as nat, (column + width) as nat),
    );
    out.append(color_suffix);
    proof {
        assert(out@ == e10 + color_suffix@);
        assert(e10 + color_suffix@ == render_ok(
            l,
            ln as nat,
            column as nat,
            width as nat,
            color_prefix@,
            color_suffix@,
        ));
    }
    out
}

/// Appends `n` copies of `c`.
pub fn push_repeat(out: &mut String, c: char, n: usize)
    ensures
        final(out)@ == old(out)@ + repeat_char(c, n as nat),
{
    proof {
        assert(out@ =~= old(out)@ + repeat_char(c, 0));
    }
    let mut j: usize = 0;
    while j < n
        invariant
            j <= n,
            out@ == old(out)@ + repeat_char(c, j as nat),
        decreases n - j,
    {
        out.push(c);
        proof {
            assert(old(out)@ + repeat_char(c, (j + 1) as nat) =~= (old(out)@ + repeat_char(
                c,
                j as nat,
            )).push(c));
        }
        j += 1;
    }
}

} // verus!
