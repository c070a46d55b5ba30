//! Turns a recipe of pastries into a picture.
//!
//! A recipe is plain text. Each `Baguette` or `Croissant` in it is one
//! pixel, drawn from left to right and from the top down inside a viewport
//! of a fixed canvas; `Boulangerie(..)` repeats a pixel and `Patisserie(..)`
//! repaints the background. The tokenizer splits the text, the parser gives
//! each token its meaning, the layout engine moves the cursor and draws,
//! and the first broken rule ends the pass with a finding that names its
//! line.

use vstd::prelude::*;

pub mod canvas;
pub mod glyph;
pub mod text;
pub mod number;
pub mod fields;
pub mod diagnostic;
pub mod directive;
pub mod parser;
pub mod layout;
pub mod tokenizer;
pub mod interpreter;
pub mod canvas_laws;
pub mod grammar_laws;
pub mod layout_laws;
pub mod tokenizer_laws;

verus! {

/// Width of the canvas in cells.
pub const WIDTH: u32 = 960;

/// Height of the canvas in cells.
pub const HEIGHT: u32 = 540;

/// Width of the drawable viewport in cells.
pub const VIEWPORT_WIDTH: u32 = 880;

/// Height of the drawable viewport in cells.
pub const VIEWPORT_HEIGHT: u32 = 460;

/// Distance between each canvas edge and the viewport, in cells.
pub const MARGIN: u32 = 40;

} // verus!
