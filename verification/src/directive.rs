use vstd::prelude::*;

use crate::diagnostic::{DirectiveForm, ErrorKind};
use crate::fields::{fields, sifted, trimmed, without_closers, without_prefixes};
use crate::glyph::{chars_of, Glyph};
use crate::number::parse_number;
use crate::text::{has_char, has_substring, lowered, position_of};

verus! {

/// The largest repeat count a loop directive can carry.
pub const MAX_REPEAT: u32 = 2147483647;

/// The value a color component takes when its text is not a number.
pub const DEFAULT_COMPONENT: u8 = 255;

/// One of the two drawable symbols.
#[derive(Clone, Copy, PartialEq, Eq, Debug, Structural)]
pub enum PastryKind {
    Baguette,
    Croissant,
}

/// One instruction of a recipe.
#[derive(Clone, Copy, PartialEq, Eq, Debug)]
#[allow(inconsistent_fields)]
pub enum Directive {
    /// Move to the start of the next row.
    LineBreak,
    /// Draw one pixel in the pastry's own color.
    SolidPixel { kind: PastryKind },
    /// Draw one pixel in the color given.
    ColoredPixel { kind: PastryKind, color: [u8; 4] },
    /// Draw `count` pixels side by side, in the color given or else in
    /// the pastry's own.
    RepeatedPixel { count: u32, kind: PastryKind, color: Option<[u8; 4]> },
    /// Repaint the whole canvas in the color given and make it the
    /// background; without a color, do nothing.
    SetBackground { color: Option<[u8; 4]> },
}

/// The token that marks the end of a line.
pub open spec fn line_break() -> Seq<char> {
    "\n"@
}

/// How a loop directive begins.
pub open spec fn loop_prefix() -> Seq<char> {
    "Boulangerie("@
}

/// How a background directive begins.
pub open spec fn background_prefix() -> Seq<char> {
    "Patisserie("@
}

/// The croissant's name, in lower case.
pub open spec fn croissant_word() -> Seq<char> {
    "croissant"@
}

/// The baguette's name, in lower case.
pub open spec fn baguette_word() -> Seq<char> {
    "baguette"@
}

/// The letters that tell a croissant from a baguette.
pub open spec fn croissant_mark() -> Seq<char> {
    "roissant"@
}

/// The color a pastry is drawn in when none is given: opaque black for a
/// croissant, opaque tan for a baguette.
pub open spec fn default_color(kind: PastryKind) -> [u8; 4] {
    match kind {
        PastryKind::Croissant => [0u8, 0u8, 0u8, 255u8],
        PastryKind::Baguette => [179u8, 145u8, 103u8, 255u8],
    }
}

/// Whether `w` names a pastry somewhere, in any mix of cases.
pub open spec fn mentions_pastry(w: Seq<Glyph>) -> bool {
    has_substring(lowered(chars_of(w)), croissant_word()) || has_substring(
        lowered(chars_of(w)),
        baguette_word(),
    )
}

/// The pastry that `w` stands for: a croissant if it holds the
/// croissant's mark in any mix of cases, a baguette otherwise.
pub open spec fn pastry_of(w: Seq<Glyph>) -> PastryKind {
    if has_substring(lowered(chars_of(w)), croissant_mark()) {
        PastryKind::Croissant
    } else {
        PastryKind::Baguette
    }
}

/// The value of one color component: the number its text denotes if that
/// is at most 255, and 255 otherwise. With `trim` set, whitespace around
/// the text does not count.
pub open spec fn component(f: Seq<Glyph>, trim: bool) -> u8 {
    match parse_number(
        if trim {
            trimmed(f)
        } else {
            f
        },
        255,
    ) {
        Some(v) => v as u8,
        None => DEFAULT_COMPONENT,
    }
}

/// The color that three or more fields spell: red, green, blue, and alpha
/// where there is a fourth field, full opacity where there is none.
pub open spec fn color_of(fs: Seq<Seq<Glyph>>, trim: bool) -> [u8; 4]
    recommends
        fs.len() >= 3,
{
    [
        component(fs[0], trim),
        component(fs[1], trim),
        component(fs[2], trim),
        if fs.len() > 3 {
            component(fs[3], trim)
        } else {
            DEFAULT_COMPONENT
        },
    ]
}

/// Index of the second opening bracket of `w`, or `w.len()` if it has
/// fewer than two.
pub open spec fn second_open(w: Seq<Glyph>) -> int {
    let first = position_of(w, '(');
    if 0 <= first < w.len() {
        first + 1 + position_of(w.skip(first + 1), '(')
    } else {
        w.len() as int
    }
}

/// What a token that holds the loop prefix means. The repeat count is
/// spelled by the numeric glyphs before the second opening bracket; a
/// color is given exactly when there is a second opening bracket, and is
/// spelled by the numeric glyphs and commas after it.
pub open spec fn classify_loop(w: Seq<Glyph>) -> Result<Directive, ErrorKind> {
    let nested = second_open(w);
    let count = parse_number(sifted(w.take(nested), false), MAX_REPEAT as nat);
    let tint = fields(sifted(w.skip(nested + 1), true));
    if !has_char(w, ')') {
        Err(ErrorKind::UnterminatedDirective { form: DirectiveForm::Loop })
    } else if !(w.len() > 12 && w[12].numeric) {
        Err(ErrorKind::MalformedLoopHeader)
    } else if !mentions_pastry(w) {
        Err(ErrorKind::UnrecognizedPastryKind)
    } else if count is None {
        Err(ErrorKind::InvalidRepeatCount)
    } else if nested < w.len() && tint.len() < 3 {
        Err(ErrorKind::IncompleteColor)
    } else {
        Ok(
            Directive::RepeatedPixel {
                count: count->0 as u32,
                kind: pastry_of(w),
                color: if nested < w.len() {
                    Some(color_of(tint, false))
                } else {
                    None
                },
            },
        )
    }
}

/// What a token that holds the background prefix means. The color is
/// spelled by the comma-separated fields of what is left once the prefix
/// has been taken off the front and the closing brackets off the end; with
/// fewer than three fields the directive carries no color.
pub open spec fn classify_background(w: Seq<Glyph>) -> Result<Directive, ErrorKind> {
    let fs = fields(without_closers(without_prefixes(w, background_prefix())));
    if !has_char(w, ')') {
        Err(ErrorKind::UnterminatedDirective { form: DirectiveForm::Background })
    } else {
        Ok(
            Directive::SetBackground {
                color: if fs.len() >= 3 {
                    Some(color_of(fs, true))
                } else {
                    None
                },
            },
        )
    }
}

/// What a token with both brackets and a pastry's name means. The color
/// is spelled by the numeric glyphs and commas of the whole token.
pub open spec fn classify_colored(w: Seq<Glyph>) -> Result<Directive, ErrorKind> {
    let fs = fields(sifted(w, true));
    if fs.len() < 3 {
        Err(ErrorKind::IncompleteColor)
    } else {
        Ok(Directive::ColoredPixel { kind: pastry_of(w), color: color_of(fs, false) })
    }
}

/// What a token means: the first of these rules that fits decides.
pub open spec fn classify(w: Seq<Glyph>) -> Result<Directive, ErrorKind> {
    if chars_of(w) == line_break() {
        Ok(Directive::LineBreak)
    } else if has_substring(chars_of(w), loop_prefix()) {
        classify_loop(w)
    } else if has_substring(chars_of(w), background_prefix()) {
        classify_background(w)
    } else if has_char(w, '(') && has_char(w, ')') && mentions_pastry(w) {
        classify_colored(w)
    } else if lowered(chars_of(w)) == croissant_word() {
        Ok(Directive::SolidPixel { kind: PastryKind::Croissant })
    } else if lowered(chars_of(w)) == baguette_word() {
        Ok(Directive::SolidPixel { kind: PastryKind::Baguette })
    } else {
        Err(ErrorKind::UnknownToken)
    }
}

impl PastryKind {
    /// The color this pastry is drawn in when none is given.
    pub fn color(self) -> (c: [u8; 4])
        ensures
            c == default_color(self),
    {
        let c: [u8; 4] = match self {
            PastryKind::Croissant => [0, 0, 0, 255],
            PastryKind::Baguette => [179, 145, 103, 255],
        };
        assert(c =~= default_color(self));
        c
    }
}

} // verus!
