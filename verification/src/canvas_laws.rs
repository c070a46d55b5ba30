use vstd::prelude::*;

use crate::canvas::{cell_at, cell_offset, flooded, fresh, on_canvas, painted, Picture, BUFFER_LEN};
use crate::layout::painted_run;

verus! {

/// The four bytes of a cell lie inside the buffer, and the bytes of two
/// different cells do not overlap.
pub proof fn lemma_cells_apart(x: int, y: int, x2: int, y2: int)
    requires
        on_canvas(x, y),
        on_canvas(x2, y2),
    ensures
        0 <= cell_offset(x, y),
        cell_offset(x, y) + 4 <= BUFFER_LEN,
        cell_offset(x, y) % 4 == 0,
        (x, y) != (x2, y2) ==> cell_offset(x, y) + 4 <= cell_offset(x2, y2) || cell_offset(x2, y2)
            + 4 <= cell_offset(x, y),
{
}

/// Drawing is seen in the cell drawn to and in no other: after drawing
/// `color` at `(x, y)`, that cell holds `color`, unless `color` is the
/// background, which draws nothing; and every other cell holds what it
/// held.
pub proof fn law_draw_changes_one_cell(p: Picture, x: int, y: int, color: [u8; 4], x2: int, y2: int)
    requires
        p.pixels.len() == BUFFER_LEN,
        on_canvas(x2, y2),
    ensures
        painted(p, x, y, color).pixels.len() == BUFFER_LEN,
        painted(p, x, y, color).background == p.background,
        cell_at(painted(p, x, y, color), x2, y2) == (if (x2, y2) == (x, y) && color
            != p.background {
            color
        } else {
            cell_at(p, x2, y2)
        }),
{
    if on_canvas(x, y) && color != p.background {
        lemma_cells_apart(x, y, x2, y2);
        assert(cell_at(painted(p, x, y, color), x2, y2) =~= (if (x2, y2) == (x, y) {
            color
        } else {
            cell_at(p, x2, y2)
        }));
    }
}

/// Repainting is total: after the background is set to `color`, every cell
/// of the canvas holds `color`, whatever was drawn before.
pub proof fn law_background_fills_every_cell(color: [u8; 4], x: int, y: int)
    requires
        on_canvas(x, y),
    ensures
        flooded(color).pixels.len() == BUFFER_LEN,
        flooded(color).background == color,
        cell_at(flooded(color), x, y) == color,
{
    lemma_cells_apart(x, y, x, y);
    assert(cell_at(flooded(color), x, y) =~= color);
}

/// Every cell of a fresh canvas holds light gray in all four channels.
pub proof fn law_fresh_canvas_is_gray(x: int, y: int)
    requires
        on_canvas(x, y),
    ensures
        fresh().pixels.len() == BUFFER_LEN,
        cell_at(fresh(), x, y) == [211u8, 211u8, 211u8, 211u8],
{
    lemma_cells_apart(x, y, x, y);
    assert(cell_at(fresh(), x, y) =~= [211u8, 211u8, 211u8, 211u8]);
}

/// A run of `n` pixels is seen in the `n` cells from `(x, y)` rightwards
/// and in no other: those of them that lie on the canvas hold `color`
/// (unless `color` is the background, which draws nothing), and every
/// other cell holds what it held.
pub proof fn law_run_changes_its_cells(
    p: Picture,
    x: int,
    y: int,
    n: nat,
    color: [u8; 4],
    x2: int,
    y2: int,
)
    requires
        p.pixels.len() == BUFFER_LEN,
        on_canvas(x2, y2),
    ensures
        painted_run(p, x, y, n, color).pixels.len() == BUFFER_LEN,
        painted_run(p, x, y, n, color).background == p.background,
        cell_at(painted_run(p, x, y, n, color), x2, y2) == (if y2 == y && x <= x2 < x + n && color
            != p.background {
            color
        } else {
            cell_at(p, x2, y2)
        }),
    decreases n,
{
    if n > 0 {
        let before = painted_run(p, x, y, (n - 1) as nat, color);
        law_run_changes_its_cells(p, x, y, (n - 1) as nat, color, x2, y2);
        law_draw_changes_one_cell(before, x + n - 1, y, color, x2, y2);
    }
}

} // verus!
