use vstd::prelude::*;

verus! {

/// What `char::is_numeric` answers for `c`: whether `c` belongs to one of
/// Unicode's general categories for numbers.
pub uninterp spec fn is_numeric_char(c: char) -> bool;

/// What `char::is_whitespace` answers for `c`: whether `c` has Unicode's
/// `White_Space` property.
pub uninterp spec fn is_whitespace_char(c: char) -> bool;

/// `char::is_numeric` is taken on trust: its answer depends on the
/// character alone and is the one named by `is_numeric_char`.
pub assume_specification[ char::is_numeric ](c: char) -> (b: bool)
    ensures
        b == is_numeric_char(c),
;

/// `char::is_whitespace` is taken on trust: its answer depends on the
/// character alone and is the one named by `is_whitespace_char`.
pub assume_specification[ char::is_whitespace ](c: char) -> (b: bool)
    ensures
        b == is_whitespace_char(c),
;

/// `String::push` is taken on trust: it appends the character to the end of
/// the string and changes nothing else.
pub assume_specification[ String::push ](s: &mut String, ch: char)
    ensures
        final(s)@ == old(s)@.push(ch),
;

/// A character together with the two Unicode properties the grammar
/// consults. Everything past the scanner works on glyphs, so that it never
/// has to ask Unicode again.
#[derive(Clone, Copy, PartialEq, Eq, Debug, Structural)]
pub struct Glyph {
    pub ch: char,
    pub numeric: bool,
    pub space: bool,
}

/// The glyph that scanning `c` yields.
pub open spec fn glyph_of(c: char) -> Glyph {
    Glyph { ch: c, numeric: is_numeric_char(c), space: is_whitespace_char(c) }
}

/// The glyphs that scanning `s` yields, one per character, in order.
pub open spec fn glyphs_of(s: Seq<char>) -> Seq<Glyph> {
    Seq::new(s.len(), |i: int| glyph_of(s[i]))
}

/// The characters of a glyph sequence.
pub open spec fn chars_of(g: Seq<Glyph>) -> Seq<char> {
    Seq::new(g.len(), |i: int| g[i].ch)
}

/// Classifies one character.
pub fn scan_char(c: char) -> (g: Glyph)
    ensures
        g == glyph_of(c),
{
    Glyph { ch: c, numeric: c.is_numeric(), space: c.is_whitespace() }
}

/// Classifies every character of `text`.
pub fn scan(text: &str) -> (glyphs: Vec<Glyph>)
    ensures
        glyphs@ == glyphs_of(text@),
{
    let mut glyphs: Vec<Glyph> = Vec::new();
    for c in it: text.chars()
        invariant
            it.seq() == text@,
            glyphs@ == glyphs_of(text@.take(it.index() as int)),
    {
        let g = scan_char(c);
        glyphs.push(g);
        assert(glyphs@ =~= glyphs_of(text@.take(it.index() + 1)));
    }
    assert(text@.take(text@.len() as int) =~= text@);
    glyphs
}

/// The string spelled by the glyphs `glyphs[from..to]`.
pub fn spell(glyphs: &Vec<Glyph>, from: usize, to: usize) -> (word: String)
    requires
        from <= to <= glyphs@.len(),
    ensures
        word@ == chars_of(glyphs@.subrange(from as int, to as int)),
{
    let mut word = String::new();
    let mut i: usize = from;
    assert(word@ =~= chars_of(glyphs@.subrange(from as int, i as int)));
    while i < to
        invariant
            from <= i <= to <= glyphs@.len(),
            word@ == chars_of(glyphs@.subrange(from as int, i as int)),
        decreases to - i,
    {
        word.push(glyphs[i].ch);
        i += 1;
        assert(word@ =~= chars_of(glyphs@.subrange(from as int, i as int)));
    }
    word
}

} // verus!
