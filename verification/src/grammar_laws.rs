use vstd::prelude::*;

use crate::canvas::Picture;
use crate::diagnostic::{Diagnostic, ErrorKind};
use crate::directive::{
    baguette_word, classify, croissant_word, line_break, Directive, PastryKind,
};
use crate::glyph::{chars_of, Glyph};
use crate::interpreter::stepped;
use crate::layout::{line_of, Cursor};
use crate::text::{lemma_position_found, lowered};

verus! {

/// Whether `token` is a pastry's bare name, in any mix of cases.
pub open spec fn is_bare(token: Seq<Glyph>) -> bool {
    lowered(chars_of(token)) == croissant_word() || lowered(chars_of(token)) == baguette_word()
}

/// The pastry that a bare name names.
pub open spec fn bare_kind(token: Seq<Glyph>) -> PastryKind {
    if lowered(chars_of(token)) == croissant_word() {
        PastryKind::Croissant
    } else {
        PastryKind::Baguette
    }
}

/// Whether `token` marks the end of a line.
pub open spec fn is_break(token: Seq<Glyph>) -> bool {
    chars_of(token) == line_break()
}

/// A pastry's bare name, in any mix of cases, is a solid pixel of that
/// pastry.
pub proof fn law_bare_name_is_solid_pixel(token: Seq<Glyph>)
    requires
        is_bare(token),
    ensures
        classify(token) == Ok::<Directive, ErrorKind>(
            Directive::SolidPixel { kind: bare_kind(token) },
        ),
{
    reveal_strlit("croissant");
    reveal_strlit("baguette");
    reveal_strlit("\n");
    reveal_strlit("Boulangerie(");
    reveal_strlit("Patisserie(");
    let chars = chars_of(token);
    let low = lowered(chars);
    assert(low.len() == chars.len());
    assert forall|j: int| 0 <= j < token.len() implies (#[trigger] token[j]).ch != '(' by {
        assert(low[j] == crate::text::ascii_lower(chars[j]));
        if low == croissant_word() {
            assert(low[j] == "croissant"@[j]);
        } else {
            assert(low[j] == "baguette"@[j]);
        }
    }
    lemma_position_found(token, '(', token.len() as int);
}

/// The line-break token is a line break.
pub proof fn law_break_is_line_break(token: Seq<Glyph>)
    requires
        is_break(token),
    ensures
        classify(token) == Ok::<Directive, ErrorKind>(Directive::LineBreak),
{
}

/// A token that breaks a rule of the grammar is reported on the cursor's
/// line and draws nothing: the canvas and the cursor stay as they were.
pub proof fn law_broken_token_draws_nothing(p: Picture, c: Cursor, token: Seq<Glyph>)
    requires
        classify(token) is Err,
    ensures
        stepped(p, c, token).picture == p,
        stepped(p, c, token).cursor == c,
        stepped(p, c, token).error == Some(
            Diagnostic { line: line_of(c.y as int), kind: classify(token)->Err_0 },
        ),
{
}

} // verus!
