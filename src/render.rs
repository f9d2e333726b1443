pub mod glyph_cache;
pub mod texture_atlas;

use vstd::prelude::*;
use crate::color::Color;
use crate::grid::Position;
use crate::tty::control_code::{CursorBlink, CursorShape, CursorStyle};

verus! {

/// What the renderer needs of the cursor.
#[derive(Debug, Clone, Copy, PartialEq, Eq)]
pub struct CursorState {
    pub position: Position,
    pub style: CursorStyle,
    pub color: Color,
    /// The color of the character under the cursor.
    pub text_color: Color,
}

impl CursorState {
    /// A cursor placed where no cell is.
    pub fn invisible() -> (r: CursorState)
        ensures
            r == (CursorState {
                position: Position { row: 0xffff, col: 0xffff },
                style: CursorStyle { shape: CursorShape::Block, blink: CursorBlink::Blinking },
                color: Color::Rgb([0, 0, 0]),
                text_color: Color::Rgb([0, 0, 0]),
            }),
    {
        CursorState {
            position: Position::new(0xffff, 0xffff),
            style: CursorStyle::default_style(),
            color: Color::Rgb([0, 0, 0]),
            text_color: Color::Rgb([0, 0, 0]),
        }
    }
}

} // verus!
