use vstd::prelude::*;

use crate::directive::line_break;
use crate::glyph::{chars_of, glyph_of, glyphs_of, is_whitespace_char, Glyph};
use crate::text::{lemma_position_of, position_of};
use crate::tokenizer::{run_length, spellings, tokens, without_return, words};

verus! {

/// Whether every glyph of `text` carries the properties of its own
/// character, as scanned text does.
pub open spec fn faithful(text: Seq<Glyph>) -> bool {
    forall|i: int| 0 <= i < text.len() ==> #[trigger] text[i] == glyph_of(text[i].ch)
}

/// Whether `w` is a word: not empty, and without whitespace or line feed.
pub open spec fn is_word(w: Seq<char>) -> bool {
    &&& w.len() > 0
    &&& forall|j: int| 0 <= j < w.len() ==> !is_whitespace_char(#[trigger] w[j]) && w[j] != '\n'
}

/// Tokenizing is a function of the text: two token lists made from the
/// same text spell the same tokens in the same order.
pub proof fn law_tokenizing_is_repeatable(text: Seq<char>, first: Seq<String>, second: Seq<String>)
    requires
        spellings(first) == tokens(glyphs_of(text)),
        spellings(second) == tokens(glyphs_of(text)),
    ensures
        first.len() == second.len(),
        forall|k: int| 0 <= k < first.len() ==> (#[trigger] first[k])@ == second[k]@,
{
    assert(spellings(first).len() == first.len());
    assert(spellings(second).len() == second.len());
    assert forall|k: int| 0 <= k < first.len() implies (#[trigger] first[k])@ == second[k]@ by {
        assert(spellings(first)[k] == first[k]@);
        assert(spellings(second)[k] == second[k]@);
    }
}

/// Scanned text is faithful.
pub proof fn law_scanned_text_is_faithful(text: Seq<char>)
    ensures
        faithful(glyphs_of(text)),
{
}

/// A run ends inside the text, holds only glyphs of its own sort, and is
/// followed by a glyph of the other sort or by nothing.
pub proof fn lemma_run_length(s: Seq<Glyph>, space: bool)
    ensures
        run_length(s, space) <= s.len(),
        forall|j: int| 0 <= j < run_length(s, space) ==> (#[trigger] s[j]).space == space,
        run_length(s, space) < s.len() ==> s[run_length(s, space) as int].space != space,
    decreases s.len(),
{
    if s.len() == 0 || s[0].space != space {
    } else {
        let rest = s.drop_first();
        lemma_run_length(rest, space);
        assert forall|j: int| 0 <= j < run_length(s, space) implies (#[trigger] s[j]).space
            == space by {
            if j > 0 {
                assert(s[j] == rest[j - 1]);
            }
        }
        if run_length(s, space) < s.len() {
            assert(s[run_length(s, space) as int] == rest[run_length(rest, space) as int]);
        }
    }
}

/// The words of a line without line feeds are words: none is empty, and
/// none holds whitespace or a line feed.
pub proof fn law_words_are_words(line: Seq<Glyph>, k: int)
    requires
        faithful(line),
        forall|i: int| 0 <= i < line.len() ==> (#[trigger] line[i]).ch != '\n',
        0 <= k < words(line).len(),
    ensures
        is_word(words(line)[k]),
    decreases line.len(),
{
    let lead = run_length(line, true);
    lemma_run_length(line, true);
    let rest = line.skip(lead as int);
    let n = run_length(rest, false);
    lemma_run_length(rest, false);
    let word = rest.take(n as int);
    let tail = rest.skip(n as int);
    if k == 0 {
        assert forall|j: int| 0 <= j < chars_of(word).len() implies !is_whitespace_char(
            #[trigger] chars_of(word)[j],
        ) && chars_of(word)[j] != '\n' by {
            assert(word[j] == rest[j]);
            assert(rest[j] == line[lead + j]);
        }
    } else {
        assert(faithful(tail)) by {
            assert forall|i: int| 0 <= i < tail.len() implies #[trigger] tail[i] == glyph_of(
                tail[i].ch,
            ) by {
                assert(tail[i] == line[lead + n + i]);
            }
        }
        assert forall|i: int| 0 <= i < tail.len() implies (#[trigger] tail[i]).ch != '\n' by {
            assert(tail[i] == line[lead + n + i]);
        }
        law_words_are_words(tail, k - 1);
    }
}

/// Every token is a line break or a word: a word is not empty and holds
/// neither whitespace nor a line feed, so that no word is mistaken for a
/// line break.
pub proof fn law_tokens_are_words_or_breaks(text: Seq<Glyph>, k: int)
    requires
        faithful(text),
        0 <= k < tokens(text).len(),
    ensures
        tokens(text)[k] == line_break() || is_word(tokens(text)[k]),
    decreases text.len(),
{
    let n = position_of(text, '\n');
    lemma_position_of(text, '\n');
    if 0 <= n < text.len() {
        let line = without_return(text.take(n));
        let rest = text.skip(n + 1);
        assert(faithful(line) && forall|i: int|
            0 <= i < line.len() ==> (#[trigger] line[i]).ch != '\n') by {
            assert forall|i: int| 0 <= i < line.len() implies #[trigger] line[i] == text[i] by {}
        }
        if k < words(line).len() {
            law_words_are_words(line, k);
        } else if k > words(line).len() {
            assert(faithful(rest)) by {
                assert forall|i: int| 0 <= i < rest.len() implies #[trigger] rest[i] == glyph_of(
                    rest[i].ch,
                ) by {
                    assert(rest[i] == text[n + 1 + i]);
                }
            }
            law_tokens_are_words_or_breaks(rest, k - words(line).len() - 1);
        }
    } else {
        if k < words(text).len() {
            law_words_are_words(text, k);
        }
    }
}

/// An empty line still gives a line break: where the text begins with a
/// line feed, its tokens are a line break and then the tokens of what
/// follows the line feed.
pub proof fn law_empty_line_emits_a_break(text: Seq<Glyph>)
    requires
        text.len() > 0,
        text[0].ch == '\n',
    ensures
        tokens(text) == seq![line_break()] + tokens(text.drop_first()),
{
    assert(text.take(0) =~= Seq::<Glyph>::empty());
    assert(text.skip(1) =~= text.drop_first());
    assert(words(Seq::<Glyph>::empty()) =~= Seq::<Seq<char>>::empty());
    assert(tokens(text) =~= seq![line_break()] + tokens(text.drop_first()));
}

} // verus!
