use vstd::prelude::*;
use std::sync::Arc;

verus! {

/// The face of a font.
#[derive(Debug, Clone, Copy, PartialEq, Eq, Hash, Structural)]
pub enum Style {
    Regular,
    Bold,
    Italic,
}

/// Where a glyph's bitmap sits relative to the pen position, in pixels.
#[derive(Debug, Clone, Copy, PartialEq, Eq)]
pub struct GlyphMetrics {
    pub ascent: i32,
    pub bearing: i32,
}

/// RGBA pixels of a rasterized glyph, row after row.
pub struct Bitmap {
    pub width: u32,
    pub height: u32,
    pub pixels: Vec<[u8; 4]>,
}

/// A glyph as the platform's font rasterizer hands it over.
pub struct RasterizedGlyph {
    pub bitmap: Bitmap,
    pub metrics: GlyphMetrics,
}

/// The three faces of the terminal's font; `F` is the platform's font type.
pub struct FontCollection<F> {
    pub regular: Arc<F>,
    pub bold: Arc<F>,
    pub italic: Arc<F>,
}

/// Relies on `Arc::clone`: a new handle to the same font.
#[verifier::external_body]
fn share<F>(font: &Arc<F>) -> (r: Arc<F>)
    ensures
        r == *font,
{
    Arc::clone(font)
}

impl<F> FontCollection<F> {
    /// The font of the face `style`.
    pub fn get_with_style(&self, style: Style) -> (r: Arc<F>)
        ensures
            r == match style {
                Style::Regular => self.regular,
                Style::Bold => self.bold,
                Style::Italic => self.italic,
            },
    {
        match style {
            Style::Regular => share(&self.regular),
            Style::Bold => share(&self.bold),
            Style::Italic => share(&self.italic),
        }
    }
}

} // verus!
