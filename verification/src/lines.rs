//! Splitting source text into lines, following the convention of
//! `str::lines`: lines end at a line feed, a carriage return directly
//! before the line feed is dropped, and a final line needs no terminator.
//! A trailing line feed therefore opens no further empty line, and empty
//! text has no lines at all.

use vstd::prelude::*;
use vstd::string::StrSliceExecFns;

verus! {

/// Index of the first line feed in `s`, or `s.len()` if there is none.
pub open spec fn first_nl(s: Seq<char>) -> nat
    decreases s.len(),
{
    if s.len() == 0 {
        0
    } else if s[0] == '\n' {
        0
    } else {
        1 + first_nl(s.drop_first())
    }
}

/// Drops a single carriage return from the end of a line's content.
pub open spec fn chomp_cr(l: Seq<char>) -> Seq<char> {
    if l.len() > 0 && l[l.len() - 1] == '\r' {
        l.drop_last()
    } else {
        l
    }
}

/// The lines of `s`, split as `str::lines` splits them.
pub open spec fn lines_spec(s: Seq<char>) -> Seq<Seq<char>>
    decreases s.len(),
{
    if s.len() == 0 {
        Seq::empty()
    } else {
        let k = first_nl(s) as int;
        if k >= s.len() {
            seq![s]
        } else {
            seq![chomp_cr(s.take(k))] + lines_spec(s.skip(k + 1))
        }
    }
}

/// `first_nl` is the unique index with no line feed before it that is
/// either the end of the text or a line feed itself.
pub proof fn lemma_first_nl(s: Seq<char>, k: int)
    requires
        0 <= k <= s.len(),
        forall|t: int| 0 <= t < k ==> s[t] != '\n',
        k < s.len() ==> s[k] == '\n',
    ensures
        first_nl(s) == k,
    decreases s.len(),
{
    if s.len() == 0 {
    } else if s[0] == '\n' {
        assert(k == 0);
    } else {
        assert(k >= 1);
        let d = s.drop_first();
        assert(forall|t: int| 0 <= t < k - 1 ==> d[t] == s[t + 1] && s[t + 1] != '\n');
        lemma_first_nl(d, k - 1);
    }
}

/// Finds the character index of the first line feed at or after `k`, or
/// the end of the text.
fn find_nl(src: &str, k: usize) -> (r: usize)
    requires
        k <= src@.len(),
    ensures
        k <= r <= src@.len(),
        forall|t: int| k <= t < r ==> src@[t] != '\n',
        r < src@.len() ==> src@[r as int] == '\n',
    decreases src@.len() - k,
{
    if k == src.unicode_len() {
        k
    } else if src.get_char(k) == '\n' {
        k
    } else {
        find_nl(src, k + 1)
    }
}

/// Locates line `n` of the text from character index `start` on: returns
/// the character range holding exactly that line's content, or `None`
/// when fewer than `n + 1` lines remain.
pub fn line_range(src: &str, start: usize, n: usize) -> (r: Option<(usize, usize)>)
    requires
        start <= src@.len(),
    ensures
        match r {
            Some(p) => {
                &&& (n as int) < lines_spec(src@.skip(start as int)).len()
                &&& start <= p.0 <= p.1 <= src@.len()
                &&& src@.subrange(p.0 as int, p.1 as int) == lines_spec(src@.skip(start as int))[n as int]
            },
            None => n >= lines_spec(src@.skip(start as int)).len(),
        },
    decreases src@.len() - start,
{
    let ghost s = src@.skip(start as int);
    if start == src.unicode_len() {
        assert(s.len() == 0);
        return None;
    }
    let k = find_nl(src, start);
    proof {
        assert(forall|t: int| 0 <= t < k - start ==> s[t] == src@[t + start] && src@[t + start]
            != '\n');
        if (k as int) < src@.len() {
            assert(s[k - start] == src@[k as int]);
        }
        lemma_first_nl(s, k - start);
    }
    if k == src.unicode_len() {
        if n == 0 {
            proof {
                assert(lines_spec(s) =~= seq![s]);
                assert(src@.subrange(start as int, k as int) =~= s);
            }
            Some((start, k))
        } else {
            None
        }
    } else {
        assert(lines_spec(s) =~= seq![chomp_cr(s.take(k - start))] + lines_spec(
            s.skip(k - start + 1),
        ));
        if n == 0 {
            assert(s.take(k - start) =~= src@.subrange(start as int, k as int));
            if k > start && src.get_char(k - 1) == '\r' {
                proof {
                    let t = s.take(k - start);
                    assert(t[t.len() - 1] == src@[k - 1]);
                    assert(chomp_cr(t) =~= src@.subrange(start as int, k - 1));
                }
                Some((start, k - 1))
            } else {
                proof {
                    let t = s.take(k - start);
                    if t.len() > 0 {
                        assert(t[t.len() - 1] == src@[k - 1]);
                    }
                    assert(chomp_cr(t) =~= src@.subrange(start as int, k as int));
                }
                Some((start, k))
            }
        } else {
            assert(s.skip(k - start + 1) =~= src@.skip(k + 1));
            line_range(src, k + 1, n - 1)
        }
    }
}

} // verus!
