use vstd::prelude::*;
use crate::font::{FontCollection, GlyphMetrics, RasterizedGlyph, Style};
use crate::render::texture_atlas::{FreeRange, TextureAtlas, carved, placement};

verus! {

/// Where a glyph's pixels sit in the atlas, and how to place them.
#[derive(Debug, Clone, Copy, PartialEq, Eq)]
pub struct Glyph {
    pub offset: [u16; 2],
    pub size: [u16; 2],
    pub metrics: GlyphMetrics,
}

#[derive(Debug, Clone, Copy, PartialEq, Eq)]
pub enum RasterizationError {
    /// The font has no glyph for the character.
    MissingGlyph,
    /// The atlas has no room left for the glyph.
    AtlasFull,
}

/// The glyph stored last for (`ch`, `style`) among `entries`.
pub open spec fn latest(entries: Seq<(char, Style, Glyph)>, ch: char, style: Style) -> Option<Glyph>
    decreases entries.len(),
{
    if entries.len() == 0 {
        None
    } else if entries.last().0 == ch && entries.last().1 == style {
        Some(entries.last().2)
    } else {
        latest(entries.drop_last(), ch, style)
    }
}

/// Glyphs already placed in the texture atlas, by character and face.
pub struct GlyphCache<F> {
    font: FontCollection<F>,
    atlas: TextureAtlas,
    glyphs: Vec<(char, Style, Glyph)>,
}

impl<F> GlyphCache<F> {
    /// The glyphs stored, oldest first.
    pub closed spec fn entries(&self) -> Seq<(char, Style, Glyph)> {
        self.glyphs@
    }

    pub closed spec fn atlas_rows(&self) -> Seq<Seq<FreeRange>> {
        self.atlas.free_rows()
    }

    pub closed spec fn atlas_size(&self) -> u16 {
        self.atlas.spec_size()
    }

    pub closed spec fn wf(&self) -> bool {
        self.atlas.wf()
    }

    /// An empty cache with an empty `atlas_size` by `atlas_size` atlas.
    pub fn new(font: FontCollection<F>, atlas_size: usize) -> (r: GlyphCache<F>)
        requires
            atlas_size <= 0xffff,
        ensures
            r.wf(),
            r.entries().len() == 0,
            r.atlas_size() == atlas_size,
            forall|y: int| 0 <= y < atlas_size ==> #[trigger] r.atlas_rows()[y] == seq![
                FreeRange { start: 0, end: atlas_size as u16 },
            ],
    {
        GlyphCache { font, atlas: TextureAtlas::new(atlas_size), glyphs: Vec::new() }
    }

    /// The font the glyphs come from.
    pub closed spec fn spec_font(&self) -> FontCollection<F> {
        self.font
    }

    pub fn font(&self) -> (r: &FontCollection<F>)
        ensures
            *r == self.spec_font(),
    {
        &self.font
    }

    /// The glyph of `ch` in face `style`, if it was placed.
    pub fn get(&self, ch: char, style: Style) -> (r: Option<Glyph>)
        ensures
            r == latest(self.entries(), ch, style),
    {
        let mut i = self.glyphs.len();
        assert(self.glyphs@.take(i as int) =~= self.glyphs@);
        while i > 0
            invariant
                i <= self.glyphs@.len(),
                latest(self.glyphs@, ch, style) == latest(self.glyphs@.take(i as int), ch, style),
            decreases i,
        {
            let entry = self.glyphs[i - 1];
            assert(self.glyphs@.take(i as int).drop_last() =~= self.glyphs@.take(i - 1));
            if entry.0 == ch && entry.1 == style {
                return Some(entry.2);
            }
            i = i - 1;
        }
        None
    }

    /// Places the glyph that the font rasterized for `ch` in face `style` (`None` when
    /// the font has none) in the atlas, and stores it. Returns the glyph and its pixels.
    pub fn rasterize(&mut self, ch: char, style: Style, rasterized: Option<RasterizedGlyph>) -> (r: Result<
        (Glyph, Vec<[u8; 4]>),
        RasterizationError,
    >)
        requires
            old(self).wf(),
        ensures
            final(self).wf(),
            final(self).atlas_size() == old(self).atlas_size(),
            match rasterized {
                None => r is Err && r->Err_0 == RasterizationError::MissingGlyph && final(self).entries()
                    == old(self).entries() && final(self).atlas_rows() == old(self).atlas_rows(),
                Some(g) => {
                    let w = g.bitmap.width;
                    let h = g.bitmap.height;
                    if w > 0xffff || h > 0xffff {
                        r is Err && r->Err_0 == RasterizationError::AtlasFull && final(self).entries()
                            == old(self).entries() && final(self).atlas_rows() == old(self).atlas_rows()
                    } else {
                        match placement(old(self).atlas_rows(), old(self).atlas_size(), w as u16, h as u16, 0) {
                            None => r is Err && r->Err_0 == RasterizationError::AtlasFull
                                && final(self).entries() == old(self).entries() && final(self).atlas_rows()
                                == old(self).atlas_rows(),
                            Some((x, y)) => r is Ok && r->Ok_0.0.offset[0] == x && r->Ok_0.0.offset[1] == y
                                && r->Ok_0.0.size[0] == w && r->Ok_0.0.size[1] == h && r->Ok_0.0.metrics
                                == g.metrics && r->Ok_0.1@ == g.bitmap.pixels@ && final(self).entries()
                                == old(self).entries().push((ch, style, r->Ok_0.0)) && final(self).atlas_rows()
                                == carved(old(self).atlas_rows(), x, y as int, w as u16, h as int),
                        }
                    }
                },
            },
    {
        let rasterized = match rasterized {
            None => return Err(RasterizationError::MissingGlyph),
            Some(g) => g,
        };
        let width = rasterized.bitmap.width;
        let height = rasterized.bitmap.height;
        if width > 0xffff || height > 0xffff {
            return Err(RasterizationError::AtlasFull);
        }
        let offset = match self.atlas.reserve(width as usize, height as usize) {
            None => return Err(RasterizationError::AtlasFull),
            Some(offset) => offset,
        };
        let glyph = Glyph { offset, size: [width as u16, height as u16], metrics: rasterized.metrics };
        self.glyphs.push((ch, style, glyph));
        Ok((glyph, rasterized.bitmap.pixels))
    }
}

} // verus!
