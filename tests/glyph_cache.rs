use spotty::font::{Bitmap, FontCollection, GlyphMetrics, RasterizedGlyph, Style};
use spotty::render::glyph_cache::{GlyphCache, RasterizationError};
use std::sync::Arc;

fn fonts() -> FontCollection<String> {
    FontCollection {
        regular: Arc::new(String::from("regular")),
        bold: Arc::new(String::from("bold")),
        italic: Arc::new(String::from("italic")),
    }
}

fn glyph(width: u32, height: u32) -> RasterizedGlyph {
    RasterizedGlyph {
        bitmap: Bitmap {
            width,
            height,
            pixels: vec![[1, 2, 3, 4]; (width * height) as usize],
        },
        metrics: GlyphMetrics { ascent: 7, bearing: -1 },
    }
}

#[test]
fn font_faces() {
    let fonts = fonts();
    assert_eq!(*fonts.get_with_style(Style::Regular), "regular");
    assert_eq!(*fonts.get_with_style(Style::Bold), "bold");
    assert_eq!(*fonts.get_with_style(Style::Italic), "italic");
}

#[test]
fn glyphs_are_placed_and_found() {
    let mut cache = GlyphCache::new(fonts(), 16);
    assert_eq!(*cache.font().bold, "bold");
    assert_eq!(cache.get('a', Style::Regular), None);
    let (a, pixels) = cache.rasterize('a', Style::Regular, Some(glyph(4, 2))).unwrap();
    assert_eq!(a.offset, [0, 0]);
    assert_eq!(a.size, [4, 2]);
    assert_eq!(a.metrics, GlyphMetrics { ascent: 7, bearing: -1 });
    assert_eq!(pixels.len(), 8);
    let (b, _) = cache.rasterize('b', Style::Bold, Some(glyph(4, 2))).unwrap();
    assert_eq!(b.offset, [4, 0]);
    assert_eq!(cache.get('a', Style::Regular), Some(a));
    assert_eq!(cache.get('a', Style::Bold), None);
    assert_eq!(cache.get('b', Style::Bold), Some(b));
}

#[test]
fn rasterization_errors() {
    let mut cache = GlyphCache::new(fonts(), 8);
    assert_eq!(
        cache.rasterize('x', Style::Regular, None).err(),
        Some(RasterizationError::MissingGlyph)
    );
    assert_eq!(
        cache.rasterize('x', Style::Regular, Some(glyph(9, 1))).err(),
        Some(RasterizationError::AtlasFull)
    );
    assert_eq!(
        cache.rasterize('x', Style::Regular, Some(glyph(70000, 0))).err(),
        Some(RasterizationError::AtlasFull)
    );
    assert_eq!(cache.get('x', Style::Regular), None);
}
