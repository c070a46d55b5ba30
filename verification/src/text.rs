use vstd::prelude::*;

use crate::glyph::{chars_of, Glyph};

verus! {

/// Index of the first occurrence of `c` in `s`, or `s.len()` if there is
/// none.
pub open spec fn position_of(s: Seq<Glyph>, c: char) -> int
    decreases s.len(),
{
    if s.len() == 0 || s[0].ch == c {
        0
    } else {
        1 + position_of(s.drop_first(), c)
    }
}

/// Whether `c` occurs in `s`.
pub open spec fn has_char(s: Seq<Glyph>, c: char) -> bool {
    position_of(s, c) < s.len()
}

/// Whether `needle` stands in `hay` at index `at`.
pub open spec fn occurs_at(hay: Seq<char>, needle: Seq<char>, at: int) -> bool {
    0 <= at && at + needle.len() <= hay.len() && hay.subrange(at, at + needle.len()) == needle
}

/// Whether `needle` stands somewhere in `hay`.
pub open spec fn has_substring(hay: Seq<char>, needle: Seq<char>) -> bool {
    exists|at: int| occurs_at(hay, needle, at)
}

/// The lower-case form of an ASCII capital; any other character itself.
pub open spec fn ascii_lower(c: char) -> char {
    if 'A' <= c && c <= 'Z' {
        ((c as u8) + 32) as char
    } else {
        c
    }
}

/// `s` with every ASCII capital replaced by its lower-case form.
pub open spec fn lowered(s: Seq<char>) -> Seq<char> {
    Seq::new(s.len(), |i: int| ascii_lower(s[i]))
}

/// `s` as a search reads it: with `fold` set, with its capitals lowered;
/// otherwise as it stands.
pub open spec fn folded(s: Seq<char>, fold: bool) -> Seq<char> {
    if fold {
        lowered(s)
    } else {
        s
    }
}

/// `position_of` is the least index that holds `c`, and the length where
/// no index does.
pub proof fn lemma_position_of(s: Seq<Glyph>, c: char)
    ensures
        0 <= position_of(s, c) <= s.len(),
        forall|j: int| 0 <= j < position_of(s, c) ==> (#[trigger] s[j]).ch != c,
        position_of(s, c) < s.len() ==> s[position_of(s, c)].ch == c,
    decreases s.len(),
{
    if s.len() == 0 || s[0].ch == c {
    } else {
        let rest = s.drop_first();
        lemma_position_of(rest, c);
        assert forall|j: int| 0 <= j < position_of(s, c) implies (#[trigger] s[j]).ch != c by {
            if j > 0 {
                assert(s[j] == rest[j - 1]);
            }
        }
        if position_of(s, c) < s.len() {
            assert(s[position_of(s, c)] == rest[position_of(rest, c)]);
        }
    }
}

/// An index that holds `c`, or the length, with no `c` before it is
/// `position_of`.
pub proof fn lemma_position_found(s: Seq<Glyph>, c: char, n: int)
    requires
        0 <= n <= s.len(),
        forall|j: int| 0 <= j < n ==> (#[trigger] s[j]).ch != c,
        n < s.len() ==> s[n].ch == c,
    ensures
        position_of(s, c) == n,
{
    lemma_position_of(s, c);
    let p = position_of(s, c);
    if p < n {
        assert(s[p].ch != c);
    } else if p > n {
        assert(s[n].ch != c);
    }
}

/// The ASCII lower-case form of `c`.
pub fn to_ascii_lower(c: char) -> (r: char)
    ensures
        r == ascii_lower(c),
{
    if 'A' <= c && c <= 'Z' {
        ((c as u8) + 32) as char
    } else {
        c
    }
}

/// Index of the first `c` in `s[from..]`, or `s.len()` when there is none
/// there.
pub fn find_char(s: &Vec<Glyph>, from: usize, c: char) -> (at: usize)
    requires
        from <= s@.len(),
    ensures
        at == from + position_of(s@.skip(from as int), c),
        from <= at <= s@.len(),
{
    let mut i: usize = from;
    while i < s.len() && s[i].ch != c
        invariant
            from <= i <= s@.len(),
            forall|j: int| from <= j < i ==> (#[trigger] s@[j]).ch != c,
        decreases s@.len() - i,
    {
        i += 1;
    }
    proof {
        let tail = s@.skip(from as int);
        assert forall|j: int| 0 <= j < i - from implies (#[trigger] tail[j]).ch != c by {
            assert(tail[j] == s@[from + j]);
        }
        lemma_position_found(tail, c, i - from);
    }
    i
}

/// Whether `needle` stands in the characters of `hay` at index `at`; with
/// `fold` set, capitals of `hay` count as their lower-case forms.
pub fn matches_at<const N: usize>(
    hay: &Vec<Glyph>,
    needle: &[char; N],
    at: usize,
    fold: bool,
) -> (r: bool)
    requires
        at + N <= hay@.len(),
    ensures
        r == occurs_at(
            folded(chars_of(hay@), fold),
            needle@,
            at as int,
        ),
{
    let ghost text = folded(chars_of(hay@), fold);
    let len = hay.len();
    let mut j: usize = 0;
    while j < N
        invariant
            at + N <= hay@.len(),
            len == hay@.len(),
            needle@.len() == N,
            j <= N,
            text == folded(chars_of(hay@), fold),
            forall|k: int| 0 <= k < j ==> text[at + k] == needle@[k],
        decreases N - j,
    {
        let c = hay[at + j].ch;
        let c = if fold {
            to_ascii_lower(c)
        } else {
            c
        };
        if c != needle[j] {
            proof {
                assert(text.subrange(at as int, at + N)[j as int] == text[at + j]);
            }
            return false;
        }
        j += 1;
    }
    proof {
        assert(text.subrange(at as int, at + N) =~= needle@);
    }
    true
}

/// Whether `needle` stands somewhere in the characters of `hay`; with
/// `fold` set, capitals of `hay` count as their lower-case forms.
pub fn find<const N: usize>(hay: &Vec<Glyph>, needle: &[char; N], fold: bool) -> (r: bool)
    ensures
        r == has_substring(
            folded(chars_of(hay@), fold),
            needle@,
        ),
{
    let ghost text = folded(chars_of(hay@), fold);
    if N == 0 {
        proof {
            assert(text.subrange(0, 0) =~= needle@);
            assert(occurs_at(text, needle@, 0));
        }
        return true;
    }
    if hay.len() < N {
        return false;
    }
    let len = hay.len();
    let last: usize = len - N;
    let mut at: usize = 0;
    while at <= last
        invariant
            len == hay@.len(),
            last + N == hay@.len(),
            needle@.len() == N,
            N >= 1,
            at <= last + 1,
            text == folded(chars_of(hay@), fold),
            forall|k: int| 0 <= k < at ==> !occurs_at(text, needle@, k),
        decreases last + 1 - at,
    {
        if matches_at(hay, needle, at, fold) {
            return true;
        }
        at += 1;
    }
    false
}

} // verus!
