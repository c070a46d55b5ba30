use vstd::prelude::*;

use crate::directive::line_break;
use crate::glyph::{chars_of, glyphs_of, scan, spell, Glyph};
use crate::text::{find_char, position_of};

verus! {

/// Length of the leading run of `s` whose glyphs are all whitespace, when
/// `space` is set, or all something else, when it is not.
pub open spec fn run_length(s: Seq<Glyph>, space: bool) -> nat
    decreases s.len(),
{
    if s.len() == 0 || s[0].space != space {
        0
    } else {
        1 + run_length(s.drop_first(), space)
    }
}

/// The words of one line: its maximal runs of glyphs that are not
/// whitespace, in their order.
pub open spec fn words(line: Seq<Glyph>) -> Seq<Seq<char>>
    decreases line.len(),
{
    let lead = run_length(line, true);
    let rest = line.skip(lead as int);
    let n = run_length(rest, false);
    if lead <= line.len() && 0 < n <= rest.len() {
        seq![chars_of(rest.take(n as int))] + words(rest.skip(n as int))
    } else {
        Seq::empty()
    }
}

/// A line without the carriage return at its end, if it has one there.
pub open spec fn without_return(line: Seq<Glyph>) -> Seq<Glyph> {
    if line.len() > 0 && line.last().ch == '\r' {
        line.drop_last()
    } else {
        line
    }
}

/// The tokens of a text: for each of its lines the words of that line and
/// then one line break. A line ends at a line feed, which is not part of
/// it, and neither is a carriage return just before the line feed; what
/// follows the last line feed is a line only if it is not empty.
pub open spec fn tokens(text: Seq<Glyph>) -> Seq<Seq<char>>
    decreases text.len(),
{
    let n = position_of(text, '\n');
    if text.len() == 0 {
        Seq::empty()
    } else if 0 <= n < text.len() {
        words(without_return(text.take(n))) + seq![line_break()] + tokens(text.skip(n + 1))
    } else {
        words(text) + seq![line_break()]
    }
}

/// What each string of a sequence spells.
pub open spec fn spellings(v: Seq<String>) -> Seq<Seq<char>> {
    Seq::new(v.len(), |k: int| v[k]@)
}

/// A run that stops at the first glyph of the other sort, or at the end,
/// has the length of `run_length`.
pub proof fn lemma_run_found(s: Seq<Glyph>, space: bool, n: int)
    requires
        0 <= n <= s.len(),
        forall|j: int| 0 <= j < n ==> (#[trigger] s[j]).space == space,
        n < s.len() ==> s[n].space != space,
    ensures
        run_length(s, space) == n,
    decreases n,
{
    if n > 0 {
        let rest = s.drop_first();
        assert forall|j: int| 0 <= j < n - 1 implies (#[trigger] rest[j]).space == space by {
            assert(rest[j] == s[j + 1]);
        }
        lemma_run_found(rest, space, n - 1);
    }
}

/// Index of the first glyph of `s[from..to]` that is of the other sort
/// than `space`, or `to` if there is none.
fn skip_run(s: &Vec<Glyph>, from: usize, to: usize, space: bool) -> (at: usize)
    requires
        from <= to <= s@.len(),
    ensures
        from <= at <= to,
        at == from + run_length(s@.subrange(from as int, to as int), space),
{
    let mut i: usize = from;
    while i < to && s[i].space == space
        invariant
            from <= i <= to <= s@.len(),
            forall|j: int| from <= j < i ==> (#[trigger] s@[j]).space == space,
        decreases to - i,
    {
        i += 1;
    }
    proof {
        let part = s@.subrange(from as int, to as int);
        assert forall|j: int| 0 <= j < i - from implies (#[trigger] part[j]).space == space by {
            assert(part[j] == s@[from + j]);
        }
        lemma_run_found(part, space, i - from);
    }
    i
}

/// Appends the words of the line `s[from..to]` to `out`.
fn push_words(s: &Vec<Glyph>, from: usize, to: usize, out: &mut Vec<String>)
    requires
        from <= to <= s@.len(),
    ensures
        spellings(final(out)@) == spellings(old(out)@) + words(s@.subrange(from as int, to as int)),
{
    let mut i: usize = from;
    assert(spellings(out@) + Seq::<Seq<char>>::empty() =~= spellings(out@));
    let ghost mut done: Seq<Seq<char>> = Seq::empty();
    loop
        invariant
            from <= i <= to <= s@.len(),
            spellings(out@) == spellings(old(out)@) + done,
            words(s@.subrange(from as int, to as int)) == done + words(
                s@.subrange(i as int, to as int),
            ),
        decreases to - i,
    {
        let a = skip_run(s, i, to, true);
        let b = skip_run(s, a, to, false);
        let ghost line = s@.subrange(i as int, to as int);
        proof {
            assert(line.skip(a - i) =~= s@.subrange(a as int, to as int));
        }
        if b == a {
            proof {
                assert(words(line) =~= Seq::<Seq<char>>::empty());
                assert(done + words(line) =~= done);
            }
            return ;
        }
        let word = spell(s, a, b);
        let ghost before = spellings(out@);
        out.push(word);
        proof {
            let rest = line.skip(a - i);
            assert(rest.take(b - a) =~= s@.subrange(a as int, b as int));
            assert(rest.skip(b - a) =~= s@.subrange(b as int, to as int));
            assert(spellings(out@) =~= before.push(word@));
            assert(words(line) =~= seq![word@] + words(s@.subrange(b as int, to as int)));
            done = done.push(word@);
            assert(spellings(out@) =~= spellings(old(out)@) + done);
            assert(words(s@.subrange(from as int, to as int)) =~= done + words(
                s@.subrange(b as int, to as int),
            ));
        }
        i = b;
    }
}

/// Splits classified text into tokens.
pub fn split_tokens(text: &Vec<Glyph>) -> (out: Vec<String>)
    ensures
        spellings(out@) == tokens(text@),
{
    let len = text.len();
    let mut out: Vec<String> = Vec::new();
    let mut start: usize = 0;
    assert(text@.skip(0) =~= text@);
    assert(spellings(out@) + tokens(text@) =~= tokens(text@));
    while start < len
        invariant
            len == text@.len(),
            start <= len,
            tokens(text@) == spellings(out@) + tokens(text@.skip(start as int)),
        decreases len - start,
    {
        let feed = find_char(text, start, '\n');
        let end = if feed < len && feed > start && text[feed - 1].ch == '\r' {
            feed - 1
        } else {
            feed
        };
        let ghost rest = text@.skip(start as int);
        let ghost before = spellings(out@);
        push_words(text, start, end, &mut out);
        let ghost line = text@.subrange(start as int, end as int);
        let mark = "\n".to_owned();
        let ghost middle = spellings(out@);
        out.push(mark);
        proof {
            assert(spellings(out@) =~= middle.push(line_break()));
            if feed < len {
                assert(rest.take(feed - start) =~= text@.subrange(start as int, feed as int));
                assert(line =~= without_return(rest.take(feed - start)));
                assert(rest.skip(feed - start + 1) =~= text@.skip(feed + 1));
                assert(tokens(rest) =~= words(line) + seq![line_break()] + tokens(
                    text@.skip(feed + 1),
                ));
                assert(tokens(text@) =~= spellings(out@) + tokens(text@.skip(feed + 1)));
            } else {
                assert(line =~= rest);
                assert(tokens(rest) =~= words(line) + seq![line_break()]);
                assert(text@.skip(len as int) =~= Seq::<Glyph>::empty());
                assert(tokens(text@) =~= spellings(out@) + tokens(text@.skip(len as int)));
            }
        }
        start = if feed < len {
            feed + 1
        } else {
            len
        };
    }
    proof {
        assert(text@.skip(len as int) =~= Seq::<Glyph>::empty());
        assert(tokens(text@) =~= spellings(out@));
    }
    out
}

/// Splits a recipe into its tokens: the words of each line, and one line
/// break after each line.
pub fn convert_string_into_array(file_content: &str) -> (out: Vec<String>)
    ensures
        spellings(out@) == tokens(glyphs_of(file_content@)),
{
    let text = scan(file_content);
    split_tokens(&text)
}

} // verus!
