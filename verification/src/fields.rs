use vstd::prelude::*;

use crate::glyph::{chars_of, Glyph};
use crate::text::{find_char, matches_at, occurs_at, position_of};

verus! {

/// Whether sifting keeps `g`: numeric glyphs always, commas on request.
pub open spec fn sift_keeps(g: Glyph, commas: bool) -> bool {
    g.numeric || (commas && g.ch == ',')
}

/// The glyphs of `s` that sifting keeps, in their order.
pub open spec fn sifted(s: Seq<Glyph>, commas: bool) -> Seq<Glyph>
    decreases s.len(),
{
    if s.len() == 0 {
        s
    } else if sift_keeps(s.last(), commas) {
        sifted(s.drop_last(), commas).push(s.last())
    } else {
        sifted(s.drop_last(), commas)
    }
}

/// The comma-separated fields of `s`, in their order. There is always at
/// least one, and a field may be empty.
pub open spec fn fields(s: Seq<Glyph>) -> Seq<Seq<Glyph>>
    decreases s.len(),
{
    let n = position_of(s, ',');
    if 0 <= n < s.len() {
        seq![s.take(n)] + fields(s.skip(n + 1))
    } else {
        seq![s]
    }
}

/// `s` without its leading whitespace.
pub open spec fn trimmed_start(s: Seq<Glyph>) -> Seq<Glyph>
    decreases s.len(),
{
    if s.len() > 0 && s[0].space {
        trimmed_start(s.drop_first())
    } else {
        s
    }
}

/// `s` without its trailing whitespace.
pub open spec fn trimmed_end(s: Seq<Glyph>) -> Seq<Glyph>
    decreases s.len(),
{
    if s.len() > 0 && s.last().space {
        trimmed_end(s.drop_last())
    } else {
        s
    }
}

/// `s` without the whitespace at either end.
pub open spec fn trimmed(s: Seq<Glyph>) -> Seq<Glyph> {
    trimmed_end(trimmed_start(s))
}

/// `s` after `prefix` has been taken off its front as often as it stands
/// there.
pub open spec fn without_prefixes(s: Seq<Glyph>, prefix: Seq<char>) -> Seq<Glyph>
    decreases s.len(),
{
    if prefix.len() > 0 && occurs_at(chars_of(s), prefix, 0) {
        without_prefixes(s.skip(prefix.len() as int), prefix)
    } else {
        s
    }
}

/// `s` without the closing brackets at its end.
pub open spec fn without_closers(s: Seq<Glyph>) -> Seq<Glyph>
    decreases s.len(),
{
    if s.len() > 0 && s.last().ch == ')' {
        without_closers(s.drop_last())
    } else {
        s
    }
}

/// The views of a vector of vectors.
pub open spec fn views(v: Seq<Vec<Glyph>>) -> Seq<Seq<Glyph>> {
    Seq::new(v.len(), |k: int| v[k]@)
}

/// The glyphs of `s[from..to]` that sifting keeps.
pub fn sift(s: &Vec<Glyph>, from: usize, to: usize, commas: bool) -> (out: Vec<Glyph>)
    requires
        from <= to <= s@.len(),
    ensures
        out@ == sifted(s@.subrange(from as int, to as int), commas),
{
    let mut out: Vec<Glyph> = Vec::new();
    let mut i: usize = from;
    assert(s@.subrange(from as int, from as int) =~= Seq::<Glyph>::empty());
    while i < to
        invariant
            from <= i <= to <= s@.len(),
            out@ == sifted(s@.subrange(from as int, i as int), commas),
        decreases to - i,
    {
        let g = s[i];
        proof {
            let next = s@.subrange(from as int, i + 1);
            assert(next.drop_last() =~= s@.subrange(from as int, i as int));
            assert(next.last() == g);
        }
        if g.numeric || (commas && g.ch == ',') {
            out.push(g);
        }
        i += 1;
    }
    out
}

/// The comma-separated fields of `s`.
pub fn split_fields(s: &Vec<Glyph>) -> (out: Vec<Vec<Glyph>>)
    ensures
        views(out@) == fields(s@),
{
    let len = s.len();
    let mut out: Vec<Vec<Glyph>> = Vec::new();
    let mut start: usize = 0;
    assert(views(out@) =~= Seq::<Seq<Glyph>>::empty());
    assert(s@.skip(0) =~= s@);
    loop
        invariant
            len == s@.len(),
            start <= len,
            fields(s@) == views(out@) + fields(s@.skip(start as int)),
        decreases len - start,
    {
        let comma = find_char(s, start, ',');
        let field = copy_range(s, start, comma);
        let ghost rest = s@.skip(start as int);
        let ghost before = views(out@);
        out.push(field);
        proof {
            assert(views(out@) =~= before.push(rest.take(comma - start))) by {
                assert(rest.take(comma - start) =~= s@.subrange(start as int, comma as int));
            }
        }
        if comma >= len {
            proof {
                assert(rest.take(comma - start) =~= rest);
                assert(fields(rest) =~= seq![rest]);
                assert(fields(s@) =~= views(out@));
            }
            return out;
        }
        proof {
            assert(rest.skip(comma - start + 1) =~= s@.skip(comma + 1));
            assert(fields(rest) =~= seq![rest.take(comma - start)] + fields(s@.skip(comma + 1)));
            assert(fields(s@) =~= views(out@) + fields(s@.skip(comma + 1)));
        }
        start = comma + 1;
    }
}

/// A copy of `s[from..to]`.
pub fn copy_range(s: &Vec<Glyph>, from: usize, to: usize) -> (out: Vec<Glyph>)
    requires
        from <= to <= s@.len(),
    ensures
        out@ == s@.subrange(from as int, to as int),
{
    let mut out: Vec<Glyph> = Vec::new();
    let mut i: usize = from;
    while i < to
        invariant
            from <= i <= to <= s@.len(),
            out@ == s@.subrange(from as int, i as int),
        decreases to - i,
    {
        out.push(s[i]);
        i += 1;
        assert(out@ =~= s@.subrange(from as int, i as int));
    }
    out
}

/// The bounds of `s` without the whitespace at either end.
pub fn trim_bounds(s: &Vec<Glyph>) -> (bounds: (usize, usize))
    ensures
        bounds.0 <= bounds.1 <= s@.len(),
        s@.subrange(bounds.0 as int, bounds.1 as int) == trimmed(s@),
{
    let len = s.len();
    let mut a: usize = 0;
    assert(s@.skip(0) =~= s@);
    while a < len && s[a].space
        invariant
            len == s@.len(),
            a <= len,
            trimmed_start(s@) == trimmed_start(s@.skip(a as int)),
        decreases len - a,
    {
        assert(s@.skip(a as int).drop_first() =~= s@.skip(a + 1));
        a += 1;
    }
    let mut b: usize = len;
    assert(s@.subrange(a as int, len as int) =~= s@.skip(a as int));
    while b > a && s[b - 1].space
        invariant
            len == s@.len(),
            a <= b <= len,
            trimmed(s@) == trimmed_end(s@.subrange(a as int, b as int)),
        decreases b,
    {
        assert(s@.subrange(a as int, b as int).drop_last() =~= s@.subrange(a as int, b - 1));
        b -= 1;
    }
    (a, b)
}

/// The bounds of what is left of `s` once `prefix` has been taken off its
/// front as often as it stands there, and then every closing bracket off
/// its end.
pub fn strip_bounds<const N: usize>(s: &Vec<Glyph>, prefix: &[char; N]) -> (bounds: (usize, usize))
    ensures
        bounds.0 <= bounds.1 <= s@.len(),
        s@.subrange(bounds.0 as int, bounds.1 as int) == without_closers(
            without_prefixes(s@, prefix@),
        ),
{
    let len = s.len();
    let mut a: usize = 0;
    assert(s@.skip(0) =~= s@);
    if N > 0 {
        while len - a >= N && matches_at(s, prefix, a, false)
            invariant
                len == s@.len(),
                a <= len,
                N > 0,
                prefix@.len() == N,
                without_prefixes(s@, prefix@) == without_prefixes(s@.skip(a as int), prefix@),
            decreases len - a,
        {
            proof {
                lemma_occurs_in_tail(s@, prefix@, a as int);
                assert(s@.skip(a as int).skip(N as int) =~= s@.skip(a + N));
            }
            a += N;
        }
        proof {
            lemma_occurs_in_tail(s@, prefix@, a as int);
        }
    }
    let mut b: usize = len;
    assert(s@.subrange(a as int, len as int) =~= s@.skip(a as int));
    while b > a && s[b - 1].ch == ')'
        invariant
            len == s@.len(),
            a <= b <= len,
            without_closers(without_prefixes(s@, prefix@)) == without_closers(
                s@.subrange(a as int, b as int),
            ),
        decreases b,
    {
        assert(s@.subrange(a as int, b as int).drop_last() =~= s@.subrange(a as int, b - 1));
        b -= 1;
    }
    (a, b)
}

/// A needle stands at the front of a tail exactly when it stands in the
/// whole at the index where the tail begins.
pub proof fn lemma_occurs_in_tail(s: Seq<Glyph>, needle: Seq<char>, at: int)
    requires
        0 <= at <= s.len(),
    ensures
        occurs_at(chars_of(s.skip(at)), needle, 0) == occurs_at(chars_of(s), needle, at),
{
    if at + needle.len() <= s.len() {
        assert(chars_of(s.skip(at)).subrange(0, needle.len() as int) =~= chars_of(s).subrange(
            at,
            at + needle.len(),
        ));
    }
}

} // verus!
