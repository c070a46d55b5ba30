use vstd::prelude::*;

use crate::canvas::{painted, flooded, Picture, World};
use crate::diagnostic::{Diagnostic, ErrorKind};
use crate::directive::{default_color, Directive};
use crate::{MARGIN, VIEWPORT_HEIGHT, VIEWPORT_WIDTH};

verus! {

/// The first column to the right of the viewport.
pub const RIGHT_EDGE: u32 = VIEWPORT_WIDTH + MARGIN;

/// The first row below the viewport.
pub const BOTTOM_EDGE: u32 = VIEWPORT_HEIGHT + MARGIN;

/// The cell that the next pixel goes to.
#[derive(Clone, Copy, PartialEq, Eq, Debug, Structural)]
pub struct Cursor {
    pub x: u32,
    pub y: u32,
}

/// Where a pass stands after one directive: what the canvas holds, where
/// the cursor is, and the finding that ended the pass, if one did.
pub struct Outcome {
    pub picture: Picture,
    pub cursor: Cursor,
    pub error: Option<Diagnostic>,
}

/// The line that row `y` is reported as: rows count from the top margin,
/// lines from one.
pub open spec fn line_of(y: int) -> u32 {
    (y - (MARGIN - 1)) as u32
}

/// The cursor at the top left corner of the viewport.
pub open spec fn origin() -> Cursor {
    Cursor { x: MARGIN, y: MARGIN }
}

/// The cursor at the start of the row below `c`.
pub open spec fn next_row(c: Cursor) -> Cursor {
    Cursor { x: MARGIN, y: (c.y + 1) as u32 }
}

/// The cursor one cell on from `c`: the next column, or the start of the
/// next row where that column would lie outside the viewport.
pub open spec fn advanced(c: Cursor) -> Cursor {
    if c.x + 1 >= RIGHT_EDGE {
        next_row(c)
    } else {
        Cursor { x: (c.x + 1) as u32, y: c.y }
    }
}

/// The outcome of a directive that left the canvas as `p` and would move
/// the cursor from `from` to `to`: the move is made unless `to` lies below
/// the viewport, which ends the pass.
pub open spec fn settled(p: Picture, from: Cursor, to: Cursor) -> Outcome {
    if to.y >= BOTTOM_EDGE {
        Outcome {
            picture: p,
            cursor: from,
            error: Some(Diagnostic { line: line_of(to.y as int), kind: ErrorKind::HeightOverflow }),
        }
    } else {
        Outcome { picture: p, cursor: to, error: None }
    }
}

/// `p` after drawing `color` into the `n` cells of row `y` that begin at
/// column `x`, from left to right.
pub open spec fn painted_run(p: Picture, x: int, y: int, n: nat, color: [u8; 4]) -> Picture
    decreases n,
{
    if n == 0 {
        p
    } else {
        painted(painted_run(p, x, y, (n - 1) as nat, color), x + n - 1, y, color)
    }
}

/// The color a loop draws in: the one given, or else the pastry's own.
pub open spec fn run_color(d: Directive) -> [u8; 4] {
    match d {
        Directive::RepeatedPixel { color: Some(c), .. } => c,
        Directive::RepeatedPixel { kind, color: None, .. } => default_color(kind),
        _ => [0u8, 0u8, 0u8, 0u8],
    }
}

/// What directive `d` does to a canvas that holds `p` with the cursor at
/// `c`.
///
/// A line break moves to the next row. A pixel is drawn at the cursor,
/// which then moves one cell on, wrapping at the right edge. A background
/// change repaints the canvas and moves the cursor one cell on as well. A
/// loop draws its pixels from the cursor rightwards and leaves the cursor
/// behind the last of them; it does not wrap, and ends the pass when it
/// reaches the right edge. Whatever moves the cursor below the viewport
/// ends the pass.
pub open spec fn applied(p: Picture, c: Cursor, d: Directive) -> Outcome {
    match d {
        Directive::LineBreak => settled(p, c, next_row(c)),
        Directive::SolidPixel { kind } => settled(
            painted(p, c.x as int, c.y as int, default_color(kind)),
            c,
            advanced(c),
        ),
        Directive::ColoredPixel { color, .. } => settled(
            painted(p, c.x as int, c.y as int, color),
            c,
            advanced(c),
        ),
        Directive::SetBackground { color: Some(color) } => settled(flooded(color), c, advanced(c)),
        Directive::SetBackground { color: None } => settled(p, c, advanced(c)),
        Directive::RepeatedPixel { count, .. } => {
            let room = RIGHT_EDGE - c.x;
            if count >= room {
                Outcome {
                    picture: painted_run(p, c.x as int, c.y as int, room as nat, run_color(d)),
                    cursor: c,
                    error: Some(
                        Diagnostic { line: line_of(c.y as int), kind: ErrorKind::WidthOverflow },
                    ),
                }
            } else {
                Outcome {
                    picture: painted_run(p, c.x as int, c.y as int, count as nat, run_color(d)),
                    cursor: Cursor { x: (c.x + count) as u32, y: c.y },
                    error: None,
                }
            }
        },
    }
}

impl Cursor {
    /// The cursor lies inside the viewport.
    pub open spec fn well_formed(&self) -> bool {
        MARGIN <= self.x < RIGHT_EDGE && MARGIN <= self.y < BOTTOM_EDGE
    }

    /// The cursor at the top left corner of the viewport.
    pub fn new() -> (c: Cursor)
        ensures
            c == origin(),
            c.well_formed(),
    {
        Cursor { x: MARGIN, y: MARGIN }
    }

    /// The line that the cursor's row is reported as.
    pub fn line(&self) -> (n: u32)
        requires
            self.well_formed(),
        ensures
            n == line_of(self.y as int),
    {
        self.y - (MARGIN - 1)
    }

    /// Moves the cursor to `to` unless that lies below the viewport.
    fn settle(&mut self, to: Cursor) -> (r: Result<(), Diagnostic>)
        requires
            old(self).well_formed(),
            MARGIN <= to.x < RIGHT_EDGE,
            MARGIN <= to.y <= BOTTOM_EDGE,
        ensures
            final(self).well_formed(),
            to.y >= BOTTOM_EDGE ==> *final(self) == *old(self) && r == Err::<(), Diagnostic>(
                Diagnostic { line: line_of(to.y as int), kind: ErrorKind::HeightOverflow },
            ),
            to.y < BOTTOM_EDGE ==> *final(self) == to && r == Ok::<(), Diagnostic>(()),
    {
        if to.y >= BOTTOM_EDGE {
            Err(Diagnostic { line: to.y - (MARGIN - 1), kind: ErrorKind::HeightOverflow })
        } else {
            *self = to;
            Ok(())
        }
    }

    /// The cursor one cell on from this one.
    fn step(&self) -> (to: Cursor)
        requires
            self.well_formed(),
        ensures
            to == advanced(*self),
            MARGIN <= to.x < RIGHT_EDGE,
            MARGIN <= to.y <= BOTTOM_EDGE,
    {
        if self.x + 1 >= RIGHT_EDGE {
            Cursor { x: MARGIN, y: self.y + 1 }
        } else {
            Cursor { x: self.x + 1, y: self.y }
        }
    }
}

/// Carries out one directive on the canvas and moves the cursor. After a
/// finding the cursor stays where it was.
pub fn apply_directive(canvas: &mut World, cursor: &mut Cursor, directive: &Directive) -> (r:
    Result<(), Diagnostic>)
    requires
        old(canvas).well_formed(),
        old(cursor).well_formed(),
    ensures
        final(canvas).well_formed(),
        final(cursor).well_formed(),
        final(canvas)@ == applied(old(canvas)@, *old(cursor), *directive).picture,
        *final(cursor) == applied(old(canvas)@, *old(cursor), *directive).cursor,
        r == (match applied(old(canvas)@, *old(cursor), *directive).error {
            Some(d) => Err::<(), Diagnostic>(d),
            None => Ok::<(), Diagnostic>(()),
        }),
{
    match *directive {
        Directive::LineBreak => {
            let to = Cursor { x: MARGIN, y: cursor.y + 1 };
            cursor.settle(to)
        },
        Directive::SolidPixel { kind } => {
            canvas.draw_pixel(cursor.x, cursor.y, kind.color());
            let to = cursor.step();
            cursor.settle(to)
        },
        Directive::ColoredPixel { color, .. } => {
            canvas.draw_pixel(cursor.x, cursor.y, color);
            let to = cursor.step();
            cursor.settle(to)
        },
        Directive::SetBackground { color } => {
            match color {
                Some(color) => {
                    canvas.set_background(color);
                },
                None => {},
            }
            let to = cursor.step();
            cursor.settle(to)
        },
        Directive::RepeatedPixel { count, kind, color } => {
            let color = match color {
                Some(color) => color,
                None => kind.color(),
            };
            let room: u32 = RIGHT_EDGE - cursor.x;
            let n: u32 = if count >= room {
                room
            } else {
                count
            };
            let x = cursor.x;
            let y = cursor.y;
            let mut i: u32 = 0;
            while i < n
                invariant
                    i <= n <= room,
                    room == RIGHT_EDGE - x,
                    MARGIN <= x < RIGHT_EDGE,
                    canvas.well_formed(),
                    canvas@ == painted_run(old(canvas)@, x as int, y as int, i as nat, color),
                decreases n - i,
            {
                canvas.draw_pixel(x + i, y, color);
                i += 1;
            }
            if count >= room {
                Err(Diagnostic { line: cursor.line(), kind: ErrorKind::WidthOverflow })
            } else {
                cursor.x = x + count;
                Ok(())
            }
        },
    }
}

} // verus!
