//! Character-level text measures: the UTF-8 byte length of a character,
//! byte positions of characters within a string, and their agreement with
//! the byte encoding that `str::len` reports.

use vstd::prelude::*;
use vstd::string::StrSliceExecFns;
use vstd::utf8::{char_is_scalar, encode_scalar, encode_utf8};

verus! {

/// Number of bytes in the UTF-8 encoding of `c`.
pub open spec fn utf8_len(c: char) -> nat {
    if (c as u32) < 0x80 {
        1
    } else if (c as u32) < 0x800 {
        2
    } else if (c as u32) < 0x10000 {
        3
    } else {
        4
    }
}

/// Byte position at which the `j`-th character of `s` begins: the sum of
/// the UTF-8 byte lengths of the characters before it.
pub open spec fn byte_index(s: Seq<char>, j: int) -> nat
    decreases s.len(),
{
    if j <= 0 || s.len() == 0 {
        0
    } else {
        utf8_len(s[0]) + byte_index(s.drop_first(), j - 1)
    }
}

/// Total byte length of `s` under UTF-8.
pub open spec fn byte_len(s: Seq<char>) -> nat {
    byte_index(s, s.len() as int)
}

/// Computes `utf8_len` executably.
pub fn utf8_len_exec(c: char) -> (n: usize)
    ensures
        n == utf8_len(c),
{
    let u = c as u32;
    if u < 0x80 {
        1
    } else if u < 0x800 {
        2
    } else if u < 0x10000 {
        3
    } else {
        4
    }
}

/// `utf8_len` agrees with the length of vstd's UTF-8 encoding of `c`.
pub proof fn lemma_utf8_len_encode(c: char)
    ensures
        utf8_len(c) == encode_scalar(c as u32).len(),
{
    char_is_scalar(c);
}

/// `byte_len` agrees with the length of vstd's UTF-8 encoding of `s`,
/// which is what `str::len` reports.
pub proof fn lemma_byte_len_encode(s: Seq<char>)
    ensures
        byte_len(s) == encode_utf8(s).len(),
    decreases s.len(),
{
    if s.len() == 0 {
    } else {
        lemma_utf8_len_encode(s[0]);
        lemma_byte_len_encode(s.drop_first());
        assert(byte_index(s, s.len() as int) == utf8_len(s[0]) + byte_index(
            s.drop_first(),
            s.len() - 1,
        ));
    }
}

/// True when some character of `s` begins at byte position `off`, or
/// `off` is the byte length of `s`: the byte positions at which `s` may
/// be split without cutting a character in two.
pub open spec fn is_boundary(s: Seq<char>, off: nat) -> bool {
    exists|j: int| 0 <= j <= s.len() && byte_index(s, j) == off
}

/// The character index at which byte position `off` falls, for a byte
/// position on a character boundary.
pub open spec fn char_pos(s: Seq<char>, off: nat) -> int {
    choose|j: int| 0 <= j <= s.len() && byte_index(s, j) == off
}

/// Byte positions grow strictly with the character index.
pub proof fn lemma_byte_index_strict(s: Seq<char>, j: int, k: int)
    requires
        0 <= j < k <= s.len(),
    ensures
        byte_index(s, j) < byte_index(s, k),
{
    lemma_byte_index_step(s, j);
    lemma_byte_index_monotone(s, j + 1, k);
}

/// At most one character index answers to a given byte position.
pub proof fn lemma_char_pos_unique(s: Seq<char>, off: nat, j: int)
    requires
        0 <= j <= s.len(),
        byte_index(s, j) == off,
    ensures
        char_pos(s, off) == j,
{
    let k = char_pos(s, off);
    assert(0 <= k <= s.len() && byte_index(s, k) == off);
    if k < j {
        lemma_byte_index_strict(s, k, j);
    } else if j < k {
        lemma_byte_index_strict(s, j, k);
    }
}

/// Finds the character index at which byte position `off` falls.
pub fn char_pos_exec(src: &str, off: usize) -> (j: usize)
    requires
        is_boundary(src@, off as nat),
        byte_len(src@) <= usize::MAX,
    ensures
        j <= src@.len(),
        byte_index(src@, j as int) == off,
        j == char_pos(src@, off as nat),
{
    proof {
        lemma_byte_len_ge_len(src@);
    }
    let mut j: usize = 0;
    let mut i: usize = 0;
    while i < off
        invariant
            j <= src@.len(),
            i == byte_index(src@, j as int),
            i <= off,
            is_boundary(src@, off as nat),
            byte_len(src@) <= usize::MAX,
            src@.len() <= usize::MAX,
        decreases off - i,
    {
        proof {
            let jb = choose|jb: int| 0 <= jb <= src@.len() && byte_index(src@, jb) == off;
            if jb <= j {
                lemma_byte_index_monotone(src@, jb, j as int);
            }
            assert(j < jb);
            lemma_byte_index_monotone(src@, j as int + 1, jb);
            lemma_byte_index_step(src@, j as int);
            lemma_byte_index_monotone(src@, j as int + 1, src@.len() as int);
        }
        let c = src.get_char(j);
        let cl = utf8_len_exec(c);
        i = i + cl;
        j = j + 1;
    }
    proof {
        lemma_char_pos_unique(src@, off as nat, j as int);
    }
    j
}

/// Across a run of one-byte characters, byte positions advance by one
/// per character.
pub proof fn lemma_byte_index_unit_range(s: Seq<char>, j: int, k: int)
    requires
        0 <= j <= k <= s.len(),
        forall|t: int| j <= t < k ==> utf8_len(#[trigger] s[t]) == 1,
    ensures
        byte_index(s, k) == byte_index(s, j) + (k - j),
    decreases k - j,
{
    if j < k {
        lemma_byte_index_step(s, j);
        lemma_byte_index_unit_range(s, j + 1, k);
    }
}

/// A character's byte position is at least its character index.
pub proof fn lemma_byte_index_ge(s: Seq<char>, j: int)
    requires
        0 <= j <= s.len(),
    ensures
        byte_index(s, j) >= j,
{
    lemma_byte_index_take(s, j);
    lemma_byte_len_ge_len(s.take(j));
}

/// Where every character before index `t` is one byte long, byte
/// positions and character indices agree.
pub proof fn lemma_byte_index_all_unit(s: Seq<char>, t: int)
    requires
        0 <= t <= s.len(),
        forall|u: int| 0 <= u < t ==> utf8_len(s[u]) == 1,
    ensures
        byte_index(s, t) == t,
    decreases t,
{
    if t > 0 {
        let d = s.drop_first();
        assert(forall|u: int| 0 <= u < t - 1 ==> d[u] == s[u + 1] && utf8_len(s[u + 1]) == 1);
        lemma_byte_index_all_unit(d, t - 1);
    }
}

/// A string has at least as many bytes as characters.
pub proof fn lemma_byte_len_ge_len(s: Seq<char>)
    ensures
        s.len() <= byte_len(s),
    decreases s.len(),
{
    if s.len() > 0 {
        lemma_byte_len_ge_len(s.drop_first());
        assert(byte_index(s, s.len() as int) == utf8_len(s[0]) + byte_index(
            s.drop_first(),
            s.len() - 1,
        ));
    }
}

/// Stepping the byte position across the `j`-th character adds its length.
pub proof fn lemma_byte_index_step(s: Seq<char>, j: int)
    requires
        0 <= j < s.len(),
    ensures
        byte_index(s, j + 1) == byte_index(s, j) + utf8_len(s[j]),
    decreases s.len(),
{
    if j == 0 {
        assert(byte_index(s, 1) == utf8_len(s[0]) + byte_index(s.drop_first(), 0));
    } else {
        lemma_byte_index_step(s.drop_first(), j - 1);
    }
}

/// Byte positions never decrease as the character index grows.
pub proof fn lemma_byte_index_monotone(s: Seq<char>, j: int, k: int)
    requires
        0 <= j <= k <= s.len(),
    ensures
        byte_index(s, j) <= byte_index(s, k),
    decreases k - j,
{
    if j < k {
        lemma_byte_index_step(s, j);
        lemma_byte_index_monotone(s, j + 1, k);
    }
}

/// Byte positions split additively at any character index `m`.
pub proof fn lemma_byte_index_split(s: Seq<char>, m: int, j: int)
    requires
        0 <= m <= s.len(),
        0 <= j <= s.len() - m,
    ensures
        byte_index(s, m + j) == byte_index(s, m) + byte_index(s.skip(m), j),
    decreases m,
{
    if m == 0 {
        assert(s.skip(0) =~= s);
    } else {
        assert(s.drop_first().skip(m - 1) =~= s.skip(m));
        lemma_byte_index_split(s.drop_first(), m - 1, j);
        assert(byte_index(s, m + j) == utf8_len(s[0]) + byte_index(s.drop_first(), m + j - 1));
        assert(byte_index(s, m) == utf8_len(s[0]) + byte_index(s.drop_first(), m - 1));
    }
}

/// A subrange's byte length is bounded by the whole string's byte length.
pub proof fn lemma_byte_len_subrange(s: Seq<char>, a: int, b: int)
    requires
        0 <= a <= b <= s.len(),
    ensures
        byte_len(s.subrange(a, b)) <= byte_len(s),
    decreases b - a,
{
    assert(s.subrange(a, b) =~= s.skip(a).subrange(0, b - a));
    lemma_byte_index_split(s, a, b - a);
    assert(s.skip(a).subrange(0, b - a) =~= s.skip(a).take(b - a));
    lemma_byte_index_take(s.skip(a), b - a);
    lemma_byte_index_monotone(s.skip(a), b - a, s.skip(a).len() as int);
    lemma_byte_index_monotone(s, a + (b - a), s.len() as int);
}

/// The byte position of index `j` equals the byte length of the first `j`
/// characters.
pub proof fn lemma_byte_index_take(s: Seq<char>, j: int)
    requires
        0 <= j <= s.len(),
    ensures
        byte_index(s, j) == byte_len(s.take(j)),
    decreases j,
{
    if j == 0 {
    } else {
        assert(s.take(j).drop_first() =~= s.drop_first().take(j - 1));
        lemma_byte_index_take_inner(s, j);
    }
}

proof fn lemma_byte_index_take_inner(s: Seq<char>, j: int)
    requires
        1 <= j <= s.len(),
    ensures
        byte_index(s, j) == byte_len(s.take(j)),
    decreases s.len(),
{
    let t = s.take(j);
    assert(t.len() == j);
    assert(t[0] == s[0]);
    if j == 1 {
        assert(byte_index(s, 1) == utf8_len(s[0]) + byte_index(s.drop_first(), 0));
        assert(byte_len(t) == utf8_len(t[0]) + byte_index(t.drop_first(), 0));
    } else {
        assert(t.drop_first() =~= s.drop_first().take(j - 1));
        lemma_byte_index_take_inner(s.drop_first(), j - 1);
        assert(byte_index(s, j) == utf8_len(s[0]) + byte_index(s.drop_first(), j - 1));
        assert(byte_len(t) == utf8_len(t[0]) + byte_index(t.drop_first(), t.len() - 1));
    }
}

} // verus!
