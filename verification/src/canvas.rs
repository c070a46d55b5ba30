use vstd::prelude::*;

use crate::{HEIGHT, WIDTH};

verus! {

/// Number of bytes in the pixel buffer: four for each cell.
pub const BUFFER_LEN: usize = 2073600;

/// The byte that every channel of a fresh canvas holds.
pub const LIGHT_GRAY: u8 = 211;

/// An RGBA canvas of `WIDTH` by `HEIGHT` cells, stored row by row with four
/// bytes to the cell, together with the color that counts as its
/// background.
pub struct World {
    pub pixels: Vec<u8>,
    pub background_color: [u8; 4],
}

/// What a canvas holds: its bytes and its background color.
pub struct Picture {
    pub pixels: Seq<u8>,
    pub background: [u8; 4],
}

impl View for World {
    type V = Picture;

    open spec fn view(&self) -> Picture {
        Picture { pixels: self.pixels@, background: self.background_color }
    }
}

/// Whether `(x, y)` names a cell of the canvas.
pub open spec fn on_canvas(x: int, y: int) -> bool {
    0 <= x < WIDTH && 0 <= y < HEIGHT
}

/// Index in the buffer of the first byte of cell `(x, y)`.
pub open spec fn cell_offset(x: int, y: int) -> int {
    (y * WIDTH + x) * 4
}

/// The color that cell `(x, y)` of `p` holds.
pub open spec fn cell_at(p: Picture, x: int, y: int) -> [u8; 4] {
    let at = cell_offset(x, y);
    [p.pixels[at], p.pixels[at + 1], p.pixels[at + 2], p.pixels[at + 3]]
}

/// A canvas as it is made: every byte is `LIGHT_GRAY`, and the background
/// is light gray at full opacity.
pub open spec fn fresh() -> Picture {
    Picture {
        pixels: Seq::new(BUFFER_LEN as nat, |i: int| LIGHT_GRAY),
        background: [LIGHT_GRAY, LIGHT_GRAY, LIGHT_GRAY, 255u8],
    }
}

/// `p` after drawing `color` at `(x, y)`. Drawing off the canvas changes
/// nothing, and neither does drawing in the background color; otherwise
/// the one cell takes the color and every other byte stays.
pub open spec fn painted(p: Picture, x: int, y: int, color: [u8; 4]) -> Picture {
    if on_canvas(x, y) && color != p.background {
        Picture {
            pixels: Seq::new(
                p.pixels.len(),
                |i: int|
                    if cell_offset(x, y) <= i < cell_offset(x, y) + 4 {
                        color[i - cell_offset(x, y)]
                    } else {
                        p.pixels[i]
                    },
            ),
            background: p.background,
        }
    } else {
        p
    }
}

/// A canvas repainted in `color`: every cell holds it, and it is the
/// background. Nothing of an earlier picture is left.
pub open spec fn flooded(color: [u8; 4]) -> Picture {
    Picture { pixels: Seq::new(BUFFER_LEN as nat, |i: int| color[i % 4]), background: color }
}

/// Whether two colors agree in all four channels.
pub fn same_color(a: [u8; 4], b: [u8; 4]) -> (r: bool)
    ensures
        r == (a == b),
{
    let r = a[0] == b[0] && a[1] == b[1] && a[2] == b[2] && a[3] == b[3];
    assert(r == (a =~= b));
    r
}

impl World {
    /// The buffer has exactly four bytes for each cell.
    pub open spec fn well_formed(&self) -> bool {
        self.pixels@.len() == BUFFER_LEN
    }

    /// A fresh canvas.
    pub fn new() -> (world: World)
        ensures
            world.well_formed(),
            world@ == fresh(),
    {
        let world = World {
            pixels: vec![LIGHT_GRAY; BUFFER_LEN],
            background_color: [LIGHT_GRAY, LIGHT_GRAY, LIGHT_GRAY, 255],
        };
        assert(world.pixels@ =~= fresh().pixels);
        assert(world.background_color =~= fresh().background);
        world
    }

    /// Draws `color` at `(x, y)`.
    pub fn draw_pixel(&mut self, x: u32, y: u32, color: [u8; 4])
        requires
            old(self).well_formed(),
        ensures
            final(self).well_formed(),
            final(self)@ == painted(old(self)@, x as int, y as int, color),
    {
        if x < WIDTH && y < HEIGHT {
            let index: usize = ((y * WIDTH + x) * 4) as usize;
            if !same_color(color, self.background_color) {
                self.pixels.set(index, color[0]);
                self.pixels.set(index + 1, color[1]);
                self.pixels.set(index + 2, color[2]);
                self.pixels.set(index + 3, color[3]);
                assert(self.pixels@ =~= painted(old(self)@, x as int, y as int, color).pixels);
            }
        }
    }

    /// Makes `color` the background and repaints every cell in it.
    pub fn set_background(&mut self, color: [u8; 4])
        requires
            old(self).well_formed(),
        ensures
            final(self).well_formed(),
            final(self)@ == flooded(color),
    {
        self.background_color = color;
        let mut i: usize = 0;
        while i < BUFFER_LEN
            invariant
                self.pixels@.len() == BUFFER_LEN,
                self.background_color == color,
                i <= BUFFER_LEN,
                i % 4 == 0,
                forall|j: int| 0 <= j < i ==> self.pixels@[j] == color[j % 4],
            decreases BUFFER_LEN - i,
        {
            self.pixels.set(i, color[0]);
            self.pixels.set(i + 1, color[1]);
            self.pixels.set(i + 2, color[2]);
            self.pixels.set(i + 3, color[3]);
            i += 4;
        }
        assert(self.pixels@ =~= flooded(color).pixels);
    }

    /// The color that cell `(x, y)` holds, if there is such a cell.
    pub fn pixel(&self, x: u32, y: u32) -> (c: Option<[u8; 4]>)
        requires
            self.well_formed(),
        ensures
            c == (if on_canvas(x as int, y as int) {
                Some(cell_at(self@, x as int, y as int))
            } else {
                None
            }),
    {
        if x < WIDTH && y < HEIGHT {
            let index: usize = ((y * WIDTH + x) * 4) as usize;
            let c = [
                self.pixels[index],
                self.pixels[index + 1],
                self.pixels[index + 2],
                self.pixels[index + 3],
            ];
            assert(c =~= cell_at(self@, x as int, y as int));
            Some(c)
        } else {
            None
        }
    }
}

} // verus!
