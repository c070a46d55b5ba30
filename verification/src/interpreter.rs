use vstd::prelude::*;

use crate::canvas::{Picture, World};
use crate::diagnostic::Diagnostic;
use crate::directive::{classify, Directive};
use crate::glyph::{glyphs_of, scan, Glyph};
use crate::layout::{applied, apply_directive, line_of, origin, Cursor, Outcome};
use crate::parser::classify_token;

verus! {

/// What a token resolves to with the cursor at `c`: its directive, or the
/// finding that it breaks a rule of the grammar on the cursor's line.
pub open spec fn resolved(token: Seq<Glyph>, c: Cursor) -> Result<Directive, Diagnostic> {
    match classify(token) {
        Ok(d) => Ok(d),
        Err(kind) => Err(Diagnostic { line: line_of(c.y as int), kind }),
    }
}

/// What one token does to a canvas that holds `p` with the cursor at `c`.
/// A token that breaks a rule of the grammar ends the pass and leaves the
/// canvas and the cursor as they were.
pub open spec fn stepped(p: Picture, c: Cursor, token: Seq<Glyph>) -> Outcome {
    match resolved(token, c) {
        Ok(d) => applied(p, c, d),
        Err(finding) => Outcome { picture: p, cursor: c, error: Some(finding) },
    }
}

/// What a sequence of tokens does, taken from left to right, to a canvas
/// that holds `p` with the cursor at `c`. The first finding ends the pass:
/// no later token has any effect.
pub open spec fn ran(p: Picture, c: Cursor, tokens: Seq<Seq<Glyph>>) -> Outcome
    decreases tokens.len(),
{
    if tokens.len() == 0 {
        Outcome { picture: p, cursor: c, error: None }
    } else {
        let before = ran(p, c, tokens.drop_last());
        if before.error is Some {
            before
        } else {
            stepped(before.picture, before.cursor, tokens.last())
        }
    }
}

/// The glyphs that scanning each string of a sequence yields.
pub open spec fn scanned(v: Seq<String>) -> Seq<Seq<Glyph>> {
    Seq::new(v.len(), |k: int| glyphs_of(v[k]@))
}

/// Nothing is drawn after a finding: if the pass over the first `n` tokens
/// has ended on a finding, the pass over all of them ends on the same
/// finding, with the same canvas.
pub proof fn law_pass_ends_at_first_finding(
    p: Picture,
    c: Cursor,
    tokens: Seq<Seq<Glyph>>,
    n: int,
)
    requires
        0 <= n <= tokens.len(),
        ran(p, c, tokens.take(n)).error is Some,
    ensures
        ran(p, c, tokens) == ran(p, c, tokens.take(n)),
    decreases tokens.len() - n,
{
    if n == tokens.len() {
        assert(tokens.take(n) =~= tokens);
    } else {
        assert(tokens.drop_last().take(n) =~= tokens.take(n));
        law_pass_ends_at_first_finding(p, c, tokens.drop_last(), n);
    }
}

/// Resolves a classified token with the cursor at `cursor`.
pub fn resolve(token: &Vec<Glyph>, cursor: &Cursor) -> (r: Result<Directive, Diagnostic>)
    requires
        cursor.well_formed(),
    ensures
        r == resolved(token@, *cursor),
{
    match classify_token(token) {
        Ok(d) => Ok(d),
        Err(kind) => Err(Diagnostic { line: cursor.line(), kind }),
    }
}

/// Resolves a token with the cursor at `cursor`: its directive, or the
/// finding that it breaks a rule of the grammar on the cursor's line.
pub fn parse_directive(token: &str, cursor: &Cursor) -> (r: Result<Directive, Diagnostic>)
    requires
        cursor.well_formed(),
    ensures
        r == resolved(glyphs_of(token@), *cursor),
{
    let glyphs = scan(token);
    resolve(&glyphs, cursor)
}

/// Carries out one classified token on the canvas and moves the cursor.
pub fn process_token(canvas: &mut World, cursor: &mut Cursor, token: &Vec<Glyph>) -> (r: Result<
    (),
    Diagnostic,
>)
    requires
        old(canvas).well_formed(),
        old(cursor).well_formed(),
    ensures
        final(canvas).well_formed(),
        final(cursor).well_formed(),
        final(canvas)@ == stepped(old(canvas)@, *old(cursor), token@).picture,
        *final(cursor) == stepped(old(canvas)@, *old(cursor), token@).cursor,
        r == (match stepped(old(canvas)@, *old(cursor), token@).error {
            Some(d) => Err::<(), Diagnostic>(d),
            None => Ok::<(), Diagnostic>(()),
        }),
{
    match resolve(token, cursor) {
        Ok(d) => apply_directive(canvas, cursor, &d),
        Err(finding) => Err(finding),
    }
}

/// Carries out a whole recipe on the canvas, token by token from the top
/// left corner of the viewport, and stops at the first finding.
pub fn process_content(canvas: &mut World, content_array: &[String]) -> (r: Result<(), Diagnostic>)
    requires
        old(canvas).well_formed(),
    ensures
        final(canvas).well_formed(),
        final(canvas)@ == ran(old(canvas)@, origin(), scanned(content_array@)).picture,
        r == (match ran(old(canvas)@, origin(), scanned(content_array@)).error {
            Some(d) => Err::<(), Diagnostic>(d),
            None => Ok::<(), Diagnostic>(()),
        }),
{
    let ghost all = scanned(content_array@);
    let mut cursor = Cursor::new();
    let mut i: usize = 0;
    assert(all.take(0) =~= Seq::<Seq<Glyph>>::empty());
    while i < content_array.len()
        invariant
            i <= content_array@.len(),
            all == scanned(content_array@),
            canvas.well_formed(),
            cursor.well_formed(),
            ran(old(canvas)@, origin(), all.take(i as int)).picture == canvas@,
            ran(old(canvas)@, origin(), all.take(i as int)).cursor == cursor,
            ran(old(canvas)@, origin(), all.take(i as int)).error is None,
        decreases content_array@.len() - i,
    {
        let glyphs = scan(content_array[i].as_str());
        proof {
            assert(all.take(i + 1).drop_last() =~= all.take(i as int));
            assert(all.take(i + 1).last() == glyphs@);
        }
        match process_token(canvas, &mut cursor, &glyphs) {
            Ok(()) => {},
            Err(finding) => {
                proof {
                    law_pass_ends_at_first_finding(old(canvas)@, origin(), all, i + 1);
                }
                return Err(finding);
            },
        }
        i += 1;
    }
    assert(all.take(i as int) =~= all);
    Ok(())
}

} // verus!
