use vstd::prelude::*;

use crate::diagnostic::{DirectiveForm, ErrorKind};
use crate::directive::{
    background_prefix, baguette_word, classify, classify_background, classify_colored,
    classify_loop, color_of, component, croissant_mark, croissant_word, line_break, loop_prefix,
    mentions_pastry, pastry_of, second_open, Directive, PastryKind, DEFAULT_COMPONENT, MAX_REPEAT,
};
use crate::fields::{copy_range, sift, split_fields, strip_bounds, trim_bounds, views};
use crate::glyph::{chars_of, Glyph};
use crate::number::read_number;
use crate::text::{find, find_char, has_char, lowered, matches_at};

verus! {

/// The characters of the loop prefix.
fn loop_prefix_chars() -> (a: [char; 12])
    ensures
        a@ == loop_prefix(),
{
    let a = ['B', 'o', 'u', 'l', 'a', 'n', 'g', 'e', 'r', 'i', 'e', '('];
    proof {
        reveal_strlit("Boulangerie(");
        assert(a@ =~= "Boulangerie("@);
    }
    a
}

/// The characters of the background prefix.
fn background_prefix_chars() -> (a: [char; 11])
    ensures
        a@ == background_prefix(),
{
    let a = ['P', 'a', 't', 'i', 's', 's', 'e', 'r', 'i', 'e', '('];
    proof {
        reveal_strlit("Patisserie(");
        assert(a@ =~= "Patisserie("@);
    }
    a
}

/// The characters of the croissant's name.
fn croissant_chars() -> (a: [char; 9])
    ensures
        a@ == croissant_word(),
{
    let a = ['c', 'r', 'o', 'i', 's', 's', 'a', 'n', 't'];
    proof {
        reveal_strlit("croissant");
        assert(a@ =~= "croissant"@);
    }
    a
}

/// The characters of the baguette's name.
fn baguette_chars() -> (a: [char; 8])
    ensures
        a@ == baguette_word(),
{
    let a = ['b', 'a', 'g', 'u', 'e', 't', 't', 'e'];
    proof {
        reveal_strlit("baguette");
        assert(a@ =~= "baguette"@);
    }
    a
}

/// The characters of the croissant's mark.
fn croissant_mark_chars() -> (a: [char; 8])
    ensures
        a@ == croissant_mark(),
{
    let a = ['r', 'o', 'i', 's', 's', 'a', 'n', 't'];
    proof {
        reveal_strlit("roissant");
        assert(a@ =~= "roissant"@);
    }
    a
}

/// Whether `w` holds the character `c`.
pub fn holds_char(w: &Vec<Glyph>, c: char) -> (r: bool)
    ensures
        r == has_char(w@, c),
{
    assert(w@.skip(0) =~= w@);
    find_char(w, 0, c) < w.len()
}

/// Whether `w` names a pastry somewhere, in any mix of cases.
pub fn names_pastry(w: &Vec<Glyph>) -> (r: bool)
    ensures
        r == mentions_pastry(w@),
{
    find(w, &croissant_chars(), true) || find(w, &baguette_chars(), true)
}

/// The pastry that `w` stands for.
pub fn pastry_kind(w: &Vec<Glyph>) -> (kind: PastryKind)
    ensures
        kind == pastry_of(w@),
{
    if find(w, &croissant_mark_chars(), true) {
        PastryKind::Croissant
    } else {
        PastryKind::Baguette
    }
}

/// Whether the characters of `w`, capitals lowered, are exactly `word`.
fn spells<const N: usize>(w: &Vec<Glyph>, word: &[char; N]) -> (r: bool)
    ensures
        r == (lowered(chars_of(w@)) == word@),
{
    if w.len() != N {
        assert(word@.len() == N);
        assert(lowered(chars_of(w@)).len() == w@.len());
        return false;
    }
    let r = matches_at(w, word, 0, true);
    proof {
        let text = lowered(chars_of(w@));
        assert(text.subrange(0, N as int) =~= text);
    }
    r
}

/// The value of one color component.
pub fn read_component(f: &Vec<Glyph>, trim: bool) -> (v: u8)
    ensures
        v == component(f@, trim),
{
    let (a, b) = if trim {
        trim_bounds(f)
    } else {
        (0, f.len())
    };
    proof {
        if !trim {
            assert(f@.subrange(0, f@.len() as int) =~= f@);
        }
    }
    match read_number(f, a, b, 255) {
        Some(v) => v as u8,
        None => DEFAULT_COMPONENT,
    }
}

/// The color that three or more fields spell.
pub fn read_color(fs: &Vec<Vec<Glyph>>, trim: bool) -> (c: [u8; 4])
    requires
        fs@.len() >= 3,
    ensures
        c == color_of(views(fs@), trim),
{
    let r = read_component(&fs[0], trim);
    let g = read_component(&fs[1], trim);
    let b = read_component(&fs[2], trim);
    let a = if fs.len() > 3 {
        read_component(&fs[3], trim)
    } else {
        DEFAULT_COMPONENT
    };
    let c = [r, g, b, a];
    assert(c =~= color_of(views(fs@), trim));
    c
}

/// The meaning of a token that holds the loop prefix.
pub fn parse_loop(w: &Vec<Glyph>) -> (r: Result<Directive, ErrorKind>)
    ensures
        r == classify_loop(w@),
{
    let len = w.len();
    if !holds_char(w, ')') {
        return Err(ErrorKind::UnterminatedDirective { form: DirectiveForm::Loop });
    }
    if !(len > 12 && w[12].numeric) {
        return Err(ErrorKind::MalformedLoopHeader);
    }
    if !names_pastry(w) {
        return Err(ErrorKind::UnrecognizedPastryKind);
    }
    assert(w@.skip(0) =~= w@);
    let first = find_char(w, 0, '(');
    let nested = if first < len {
        find_char(w, first + 1, '(')
    } else {
        len
    };
    assert(nested == second_open(w@));
    let digits = sift(w, 0, nested, false);
    assert(w@.subrange(0, nested as int) =~= w@.take(nested as int));
    assert(digits@.subrange(0, digits@.len() as int) =~= digits@);
    let count = match read_number(&digits, 0, digits.len(), MAX_REPEAT) {
        Some(count) => count,
        None => {
            return Err(ErrorKind::InvalidRepeatCount);
        },
    };
    let kind = pastry_kind(w);
    if nested < len {
        let tint = split_fields(&sift(w, nested + 1, len, true));
        assert(w@.subrange(nested + 1, len as int) =~= w@.skip(nested + 1));
        if tint.len() < 3 {
            return Err(ErrorKind::IncompleteColor);
        }
        let color = read_color(&tint, false);
        Ok(Directive::RepeatedPixel { count, kind, color: Some(color) })
    } else {
        Ok(Directive::RepeatedPixel { count, kind, color: None })
    }
}

/// The meaning of a token that holds the background prefix.
pub fn parse_background(w: &Vec<Glyph>) -> (r: Result<Directive, ErrorKind>)
    ensures
        r == classify_background(w@),
{
    if !holds_char(w, ')') {
        return Err(ErrorKind::UnterminatedDirective { form: DirectiveForm::Background });
    }
    let (a, b) = strip_bounds(w, &background_prefix_chars());
    let fs = split_fields(&copy_range(w, a, b));
    if fs.len() >= 3 {
        let color = read_color(&fs, true);
        Ok(Directive::SetBackground { color: Some(color) })
    } else {
        Ok(Directive::SetBackground { color: None })
    }
}

/// The meaning of a token with both brackets and a pastry's name.
pub fn parse_colored(w: &Vec<Glyph>) -> (r: Result<Directive, ErrorKind>)
    ensures
        r == classify_colored(w@),
{
    let fs = split_fields(&sift(w, 0, w.len(), true));
    assert(w@.subrange(0, w@.len() as int) =~= w@);
    if fs.len() < 3 {
        return Err(ErrorKind::IncompleteColor);
    }
    let color = read_color(&fs, false);
    Ok(Directive::ColoredPixel { kind: pastry_kind(w), color })
}

/// Whether `w` is the token that marks the end of a line.
fn is_line_break(w: &Vec<Glyph>) -> (r: bool)
    ensures
        r == (chars_of(w@) == line_break()),
{
    proof {
        reveal_strlit("\n");
    }
    let r = w.len() == 1 && w[0].ch == '\n';
    proof {
        if r {
            assert(chars_of(w@) =~= "\n"@);
        } else if w@.len() == 1 {
            assert(chars_of(w@)[0] != "\n"@[0]);
        } else {
            assert(chars_of(w@).len() != "\n"@.len());
        }
    }
    r
}

/// The meaning of one token, by the first rule of the grammar that fits.
pub fn classify_token(w: &Vec<Glyph>) -> (r: Result<Directive, ErrorKind>)
    ensures
        r == classify(w@),
{
    if is_line_break(w) {
        Ok(Directive::LineBreak)
    } else if find(w, &loop_prefix_chars(), false) {
        parse_loop(w)
    } else if find(w, &background_prefix_chars(), false) {
        parse_background(w)
    } else if holds_char(w, '(') && holds_char(w, ')') && names_pastry(w) {
        parse_colored(w)
    } else if spells(w, &croissant_chars()) {
        Ok(Directive::SolidPixel { kind: PastryKind::Croissant })
    } else if spells(w, &baguette_chars()) {
        Ok(Directive::SolidPixel { kind: PastryKind::Baguette })
    } else {
        Err(ErrorKind::UnknownToken)
    }
}

} // verus!
