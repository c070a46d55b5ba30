use vstd::prelude::*;

use crate::canvas::{cell_at, fresh, on_canvas, Picture, BUFFER_LEN};
use crate::canvas_laws::{
    law_background_fills_every_cell, law_draw_changes_one_cell, law_run_changes_its_cells,
};
use crate::diagnostic::{Diagnostic, ErrorKind};
use crate::directive::{default_color, Directive, PastryKind};
use crate::glyph::Glyph;
use crate::grammar_laws::{
    bare_kind, is_bare, is_break, law_bare_name_is_solid_pixel, law_break_is_line_break,
};
use crate::interpreter::{law_pass_ends_at_first_finding, ran, stepped};
use crate::layout::{
    advanced, applied, line_of, next_row, run_color, Cursor, BOTTOM_EDGE, RIGHT_EDGE,
};
use crate::{MARGIN, VIEWPORT_WIDTH, WIDTH};

verus! {

/// Whether `p` is the picture of a canvas on which both pastries show:
/// neither pastry's own color is the background.
pub open spec fn shows_pastries(p: Picture) -> bool {
    &&& p.pixels.len() == BUFFER_LEN
    &&& default_color(PastryKind::Croissant) != p.background
    &&& default_color(PastryKind::Baguette) != p.background
}

/// Whether every token is a pastry's bare name or a line break.
pub open spec fn all_plain(tokens: Seq<Seq<Glyph>>) -> bool {
    forall|k: int| 0 <= k < tokens.len() ==> is_bare(#[trigger] tokens[k]) || is_break(tokens[k])
}

/// Where the cursor stands when token `k` is reached.
pub open spec fn cursor_before(p: Picture, c: Cursor, tokens: Seq<Seq<Glyph>>, k: int) -> Cursor {
    ran(p, c, tokens.take(k)).cursor
}

/// The color a solid or colored pixel is drawn in.
pub open spec fn pixel_color(d: Directive) -> [u8; 4] {
    match d {
        Directive::SolidPixel { kind } => default_color(kind),
        Directive::ColoredPixel { color, .. } => color,
        _ => [0u8, 0u8, 0u8, 0u8],
    }
}

/// The place of a cell in raster order: rows from the top, and within a
/// row columns from the left.
pub open spec fn raster_rank(c: Cursor) -> int {
    c.y * WIDTH + c.x
}

/// A pixel drawn in the last column of the viewport is followed by a wrap:
/// the cursor goes to the start of the next row and nothing is reported,
/// as long as that row lies in the viewport.
pub proof fn law_pixel_in_last_column_wraps(p: Picture, c: Cursor, d: Directive)
    requires
        c.well_formed(),
        c.x == RIGHT_EDGE - 1,
        c.y + 1 < BOTTOM_EDGE,
        d is SolidPixel || d is ColoredPixel,
    ensures
        applied(p, c, d).error is None,
        applied(p, c, d).cursor == (Cursor { x: MARGIN, y: (c.y + 1) as u32 }),
{
}

/// A single pixel is drawn at the cursor and nowhere else: after a solid
/// or colored pixel the cursor's cell holds the directive's color, every
/// other cell holds what it held, and the cursor has moved one cell on,
/// unless that took it below the viewport.
pub proof fn law_pixel_draws_at_cursor(p: Picture, c: Cursor, d: Directive, x: int, y: int)
    requires
        p.pixels.len() == BUFFER_LEN,
        c.well_formed(),
        d is SolidPixel || d is ColoredPixel,
        pixel_color(d) != p.background,
        on_canvas(x, y),
    ensures
        cell_at(applied(p, c, d).picture, x, y) == (if (x, y) == (c.x as int, c.y as int) {
            pixel_color(d)
        } else {
            cell_at(p, x, y)
        }),
        applied(p, c, d).picture.background == p.background,
        advanced(c).y < BOTTOM_EDGE ==> applied(p, c, d).error is None && applied(p, c, d).cursor
            == advanced(c),
        advanced(c).y >= BOTTOM_EDGE ==> applied(p, c, d).error == Some(
            Diagnostic { line: line_of(BOTTOM_EDGE as int), kind: ErrorKind::HeightOverflow },
        ),
{
    law_draw_changes_one_cell(p, c.x as int, c.y as int, pixel_color(d), x, y);
}

/// A background directive with a color repaints everything: afterwards
/// every cell of the canvas holds that color, whatever was drawn before,
/// and it is the background. Without a color the directive leaves the
/// canvas as it was.
pub proof fn law_background_directive_repaints(p: Picture, c: Cursor, d: Directive, x: int, y: int)
    requires
        c.well_formed(),
        d is SetBackground,
        on_canvas(x, y),
    ensures
        d->SetBackground_color is Some ==> cell_at(applied(p, c, d).picture, x, y)
            == d->SetBackground_color->0 && applied(p, c, d).picture.background
            == d->SetBackground_color->0,
        d->SetBackground_color is None ==> applied(p, c, d).picture == p,
{
    if d->SetBackground_color is Some {
        law_background_fills_every_cell(d->SetBackground_color->0, x, y);
    }
}

/// A loop that fits draws its pixels side by side from the cursor and
/// leaves the cursor behind the last of them, in the same row: the cells
/// from the cursor rightwards, as many as the repeat count, hold the
/// loop's color, and every other cell holds what it held. A loop that
/// reaches the right edge is reported as a width overflow on the cursor's
/// line.
pub proof fn law_loop_draws_a_run(p: Picture, c: Cursor, d: Directive, x: int, y: int)
    requires
        p.pixels.len() == BUFFER_LEN,
        c.well_formed(),
        d is RepeatedPixel,
        run_color(d) != p.background,
        on_canvas(x, y),
    ensures
        d->RepeatedPixel_count < RIGHT_EDGE - c.x ==> {
            &&& applied(p, c, d).error is None
            &&& applied(p, c, d).cursor == (Cursor {
                x: (c.x + d->RepeatedPixel_count) as u32,
                y: c.y,
            })
            &&& cell_at(applied(p, c, d).picture, x, y) == (if y == c.y && c.x <= x < c.x
                + d->RepeatedPixel_count {
                run_color(d)
            } else {
                cell_at(p, x, y)
            })
        },
        d->RepeatedPixel_count >= RIGHT_EDGE - c.x ==> applied(p, c, d).error == Some(
            Diagnostic { line: line_of(c.y as int), kind: ErrorKind::WidthOverflow },
        ),
{
    let count = d->RepeatedPixel_count;
    if count < RIGHT_EDGE - c.x {
        law_run_changes_its_cells(p, c.x as int, c.y as int, count as nat, run_color(d), x, y);
    }
}

/// What a bare name or a line break does. A bare name draws its pastry's
/// color at the cursor and nowhere else, and moves the cursor one cell on
/// in raster order; a line break draws nothing and moves the cursor to the
/// start of the next row. Either is reported only for moving the cursor
/// below the viewport.
pub proof fn law_plain_token_step(p: Picture, c: Cursor, token: Seq<Glyph>, x: int, y: int)
    requires
        shows_pastries(p),
        c.well_formed(),
        is_bare(token) || is_break(token),
        on_canvas(x, y),
    ensures
        shows_pastries(stepped(p, c, token).picture),
        stepped(p, c, token).picture.background == p.background,
        stepped(p, c, token).cursor.well_formed(),
        cell_at(stepped(p, c, token).picture, x, y) == (if is_bare(token) && (x, y) == (
            c.x as int,
            c.y as int,
        ) {
            default_color(bare_kind(token))
        } else {
            cell_at(p, x, y)
        }),
        stepped(p, c, token).error is None ==> stepped(p, c, token).cursor == (if is_bare(token) {
            advanced(c)
        } else {
            next_row(c)
        }),
        stepped(p, c, token).error is None ==> raster_rank(stepped(p, c, token).cursor)
            > raster_rank(c),
        stepped(p, c, token).error is Some ==> stepped(p, c, token).error == Some(
            Diagnostic { line: line_of(BOTTOM_EDGE as int), kind: ErrorKind::HeightOverflow },
        ),
{
    reveal_strlit("croissant");
    reveal_strlit("baguette");
    reveal_strlit("\n");
    if is_break(token) {
        law_break_is_line_break(token);
        assert(!is_bare(token)) by {
            assert(crate::text::lowered(crate::glyph::chars_of(token)).len() == 1);
        }
    } else {
        law_bare_name_is_solid_pixel(token);
        law_draw_changes_one_cell(
            p,
            c.x as int,
            c.y as int,
            default_color(bare_kind(token)),
            x,
            y,
        );
        law_draw_changes_one_cell(
            p,
            c.x as int,
            c.y as int,
            default_color(bare_kind(token)),
            c.x as int,
            c.y as int,
        );
    }
}

/// A pass that ends without a finding has none after any of its tokens.
proof fn lemma_no_finding_on_the_way(p: Picture, c: Cursor, tokens: Seq<Seq<Glyph>>, k: int)
    requires
        ran(p, c, tokens).error is None,
        0 <= k <= tokens.len(),
    ensures
        ran(p, c, tokens.take(k)).error is None,
{
    if ran(p, c, tokens.take(k)).error is Some {
        law_pass_ends_at_first_finding(p, c, tokens, k);
    }
}

/// A pass over one token more is a step from the pass over the others.
proof fn lemma_ran_unfolds(p: Picture, c: Cursor, tokens: Seq<Seq<Glyph>>, k: int)
    requires
        0 < k <= tokens.len(),
        ran(p, c, tokens.take(k - 1)).error is None,
    ensures
        ran(p, c, tokens.take(k)) == stepped(
            ran(p, c, tokens.take(k - 1)).picture,
            ran(p, c, tokens.take(k - 1)).cursor,
            tokens[k - 1],
        ),
{
    let head = tokens.take(k);
    assert(head.drop_last() =~= tokens.take(k - 1));
    assert(head.last() == tokens[k - 1]);
}

/// On the way through a pass over bare names and line breaks the canvas
/// keeps its background and the cursor stays inside the viewport.
proof fn lemma_plain_pass_keeps_shape(p: Picture, c: Cursor, tokens: Seq<Seq<Glyph>>, k: int)
    requires
        shows_pastries(p),
        c.well_formed(),
        all_plain(tokens),
        ran(p, c, tokens).error is None,
        0 <= k <= tokens.len(),
    ensures
        ran(p, c, tokens.take(k)).error is None,
        shows_pastries(ran(p, c, tokens.take(k)).picture),
        ran(p, c, tokens.take(k)).picture.background == p.background,
        cursor_before(p, c, tokens, k).well_formed(),
    decreases k,
{
    lemma_no_finding_on_the_way(p, c, tokens, k);
    if k == 0 {
        assert(tokens.take(0) =~= Seq::<Seq<Glyph>>::empty());
    } else {
        lemma_plain_pass_keeps_shape(p, c, tokens, k - 1);
        lemma_ran_unfolds(p, c, tokens, k);
        let before = ran(p, c, tokens.take(k - 1));
        law_plain_token_step(before.picture, before.cursor, tokens[k - 1], 0, 0);
    }
}

/// A pass over bare names and line breaks that ends without a finding
/// moves the cursor strictly forward in raster order at every token, and
/// keeps it inside the viewport.
pub proof fn law_plain_pass_moves_forward(
    p: Picture,
    c: Cursor,
    tokens: Seq<Seq<Glyph>>,
    j: int,
    k: int,
)
    requires
        shows_pastries(p),
        c.well_formed(),
        all_plain(tokens),
        ran(p, c, tokens).error is None,
        0 <= j < k <= tokens.len(),
    ensures
        cursor_before(p, c, tokens, j).well_formed(),
        cursor_before(p, c, tokens, k).well_formed(),
        raster_rank(cursor_before(p, c, tokens, j)) < raster_rank(cursor_before(p, c, tokens, k)),
    decreases k - j,
{
    lemma_plain_pass_keeps_shape(p, c, tokens, j);
    lemma_plain_pass_keeps_shape(p, c, tokens, k - 1);
    lemma_plain_pass_keeps_shape(p, c, tokens, k);
    lemma_ran_unfolds(p, c, tokens, k);
    let before = ran(p, c, tokens.take(k - 1));
    law_plain_token_step(before.picture, before.cursor, tokens[k - 1], 0, 0);
    if j < k - 1 {
        law_plain_pass_moves_forward(p, c, tokens, j, k - 1);
    }
}

/// A pass over bare names and line breaks visits the cells in raster
/// order from where it starts: the cursor moves one cell on at each bare
/// name, wrapping at the right edge, and to the start of the next row at
/// each line break.
pub proof fn law_plain_pass_follows_raster_order(
    p: Picture,
    c: Cursor,
    tokens: Seq<Seq<Glyph>>,
    k: int,
)
    requires
        shows_pastries(p),
        c.well_formed(),
        all_plain(tokens),
        ran(p, c, tokens).error is None,
        0 <= k < tokens.len(),
    ensures
        cursor_before(p, c, tokens, 0) == c,
        cursor_before(p, c, tokens, k + 1) == (if is_bare(tokens[k]) {
            advanced(cursor_before(p, c, tokens, k))
        } else {
            next_row(cursor_before(p, c, tokens, k))
        }),
{
    assert(tokens.take(0) =~= Seq::<Seq<Glyph>>::empty());
    lemma_plain_pass_keeps_shape(p, c, tokens, k);
    lemma_plain_pass_keeps_shape(p, c, tokens, k + 1);
    lemma_ran_unfolds(p, c, tokens, k + 1);
    let before = ran(p, c, tokens.take(k));
    law_plain_token_step(before.picture, before.cursor, tokens[k], 0, 0);
}

/// Both pastries show on a fresh canvas.
pub proof fn law_fresh_canvas_shows_pastries()
    ensures
        shows_pastries(fresh()),
{
    assert(default_color(PastryKind::Croissant)[0] != fresh().background[0]);
    assert(default_color(PastryKind::Baguette)[0] != fresh().background[0]);
}

/// Index of the last bare name among `tokens` that the cursor stood at
/// `here` for, or `-1` if there is none.
pub open spec fn last_painter(p: Picture, c: Cursor, tokens: Seq<Seq<Glyph>>, here: Cursor) -> int
    decreases tokens.len(),
{
    if tokens.len() == 0 {
        -1
    } else if is_bare(tokens.last()) && ran(p, c, tokens.drop_last()).cursor == here {
        tokens.len() - 1
    } else {
        last_painter(p, c, tokens.drop_last(), here)
    }
}

/// The last painter of a cell is a bare name that the cursor stood at the
/// cell for, and no later bare name is one.
proof fn lemma_last_painter(
    p: Picture,
    c: Cursor,
    tokens: Seq<Seq<Glyph>>,
    here: Cursor,
    k: int,
)
    requires
        0 <= k < tokens.len(),
    ensures
        -1 <= last_painter(p, c, tokens, here) < tokens.len(),
        last_painter(p, c, tokens, here) >= 0 ==> is_bare(tokens[last_painter(p, c, tokens, here)])
            && cursor_before(p, c, tokens, last_painter(p, c, tokens, here)) == here,
        is_bare(tokens[k]) && cursor_before(p, c, tokens, k) == here ==> last_painter(
            p,
            c,
            tokens,
            here,
        ) >= k,
    decreases tokens.len(),
{
    let n = tokens.len() as int;
    let init = tokens.drop_last();
    assert(init =~= tokens.take(n - 1));
    if is_bare(tokens.last()) && ran(p, c, init).cursor == here {
    } else if n > 1 {
        let j = if k < n - 1 {
            k
        } else {
            0
        };
        lemma_last_painter(p, c, init, here, j);
        let m = last_painter(p, c, init, here);
        if m >= 0 {
            assert(init.take(m) =~= tokens.take(m));
        }
        assert(init.take(j) =~= tokens.take(j));
    }
}

/// After a pass over bare names and line breaks a cell holds the color
/// of its last painter, or what it held before if it has none.
proof fn lemma_cell_by_last_painter(
    p: Picture,
    c: Cursor,
    tokens: Seq<Seq<Glyph>>,
    x: int,
    y: int,
)
    requires
        shows_pastries(p),
        c.well_formed(),
        all_plain(tokens),
        ran(p, c, tokens).error is None,
        on_canvas(x, y),
    ensures
        cell_at(ran(p, c, tokens).picture, x, y) == (if last_painter(
            p,
            c,
            tokens,
            Cursor { x: x as u32, y: y as u32 },
        ) >= 0 {
            default_color(
                bare_kind(tokens[last_painter(p, c, tokens, Cursor { x: x as u32, y: y as u32 })]),
            )
        } else {
            cell_at(p, x, y)
        }),
    decreases tokens.len(),
{
    let n = tokens.len() as int;
    let here = Cursor { x: x as u32, y: y as u32 };
    if n > 0 {
        let init = tokens.drop_last();
        assert(init =~= tokens.take(n - 1));
        assert(tokens.take(n) =~= tokens);
        lemma_plain_pass_keeps_shape(p, c, tokens, n - 1);
        lemma_ran_unfolds(p, c, tokens, n);
        assert(all_plain(init)) by {
            assert forall|k: int| 0 <= k < init.len() implies is_bare(#[trigger] init[k])
                || is_break(init[k]) by {
                assert(init[k] == tokens[k]);
            }
        }
        lemma_cell_by_last_painter(p, c, init, x, y);
        let before = ran(p, c, init);
        law_plain_token_step(before.picture, before.cursor, tokens[n - 1], x, y);
        if n > 1 {
            lemma_last_painter(p, c, init, here, 0);
            let m = last_painter(p, c, init, here);
            if m >= 0 {
                assert(init[m] == tokens[m]);
            }
        }
    }
}

/// A recipe of bare names and line breaks draws one pixel for each name,
/// in raster order, and nothing else. When its pass ends without a
/// finding, the cell where the cursor stood at a name holds that
/// pastry's color, and a cell where the cursor stood at no name holds
/// what it held before the pass.
pub proof fn law_plain_recipe_draws_one_pixel_per_name(
    p: Picture,
    c: Cursor,
    tokens: Seq<Seq<Glyph>>,
    x: int,
    y: int,
)
    requires
        shows_pastries(p),
        c.well_formed(),
        all_plain(tokens),
        ran(p, c, tokens).error is None,
        on_canvas(x, y),
    ensures
        forall|k: int|
            0 <= k < tokens.len() && is_bare(#[trigger] tokens[k]) && cursor_before(
                p,
                c,
                tokens,
                k,
            ) == (Cursor { x: x as u32, y: y as u32 }) ==> cell_at(ran(p, c, tokens).picture, x, y)
                == default_color(bare_kind(tokens[k])),
        (forall|k: int|
            0 <= k < tokens.len() && is_bare(#[trigger] tokens[k]) ==> cursor_before(
                p,
                c,
                tokens,
                k,
            ) != (Cursor { x: x as u32, y: y as u32 })) ==> cell_at(ran(p, c, tokens).picture, x, y)
            == cell_at(p, x, y),
{
    let here = Cursor { x: x as u32, y: y as u32 };
    let m = last_painter(p, c, tokens, here);
    lemma_cell_by_last_painter(p, c, tokens, x, y);
    if tokens.len() > 0 {
        lemma_last_painter(p, c, tokens, here, 0);
    }
    assert forall|k: int|
        0 <= k < tokens.len() && is_bare(#[trigger] tokens[k]) && cursor_before(p, c, tokens, k)
            == here implies cell_at(ran(p, c, tokens).picture, x, y) == default_color(
        bare_kind(tokens[k]),
    ) by {
        lemma_last_painter(p, c, tokens, here, k);
        if k < m {
            law_plain_pass_moves_forward(p, c, tokens, k, m);
        }
    }
}

/// A line of bare names that exactly fills the viewport's width wraps. With
/// the cursor at the start of a row that is not the last, as many names as
/// the viewport is wide are drawn in that row's cells of the viewport, one
/// to a column from the left margin; then the cursor stands at the start
/// of the next row, and nothing is reported.
pub proof fn law_full_line_wraps(p: Picture, c: Cursor, tokens: Seq<Seq<Glyph>>, k: int)
    requires
        shows_pastries(p),
        c.well_formed(),
        c.x == MARGIN,
        c.y + 1 < BOTTOM_EDGE,
        tokens.len() == VIEWPORT_WIDTH,
        forall|i: int| 0 <= i < tokens.len() ==> is_bare(#[trigger] tokens[i]),
        0 <= k < tokens.len(),
    ensures
        ran(p, c, tokens).error is None,
        ran(p, c, tokens).cursor == (Cursor { x: MARGIN, y: (c.y + 1) as u32 }),
        cursor_before(p, c, tokens, k) == (Cursor { x: (MARGIN + k) as u32, y: c.y }),
{
    lemma_bare_names_fill_a_row(p, c, tokens, k);
    lemma_bare_names_fill_a_row(p, c, tokens, tokens.len() - 1);
    let n = tokens.len() as int;
    assert(tokens.take(n) =~= tokens);
    assert(tokens.drop_last() =~= tokens.take(n - 1));
    let before = ran(p, c, tokens.take(n - 1));
    law_plain_token_step(before.picture, before.cursor, tokens[n - 1], 0, 0);
}

/// The first `k` bare names of a row leave the cursor `k` columns on.
proof fn lemma_bare_names_fill_a_row(p: Picture, c: Cursor, tokens: Seq<Seq<Glyph>>, k: int)
    requires
        shows_pastries(p),
        c.well_formed(),
        c.x == MARGIN,
        c.y + 1 < BOTTOM_EDGE,
        forall|i: int| 0 <= i < tokens.len() ==> is_bare(#[trigger] tokens[i]),
        0 <= k <= tokens.len(),
        k < VIEWPORT_WIDTH,
    ensures
        ran(p, c, tokens.take(k)).error is None,
        shows_pastries(ran(p, c, tokens.take(k)).picture),
        ran(p, c, tokens.take(k)).cursor == (Cursor { x: (MARGIN + k) as u32, y: c.y }),
    decreases k,
{
    if k == 0 {
        assert(tokens.take(0) =~= Seq::<Seq<Glyph>>::empty());
    } else {
        lemma_bare_names_fill_a_row(p, c, tokens, k - 1);
        let head = tokens.take(k);
        assert(head.drop_last() =~= tokens.take(k - 1));
        assert(head.last() == tokens[k - 1]);
        let before = ran(p, c, tokens.take(k - 1));
        law_plain_token_step(before.picture, before.cursor, tokens[k - 1], 0, 0);
    }
}

} // verus!
