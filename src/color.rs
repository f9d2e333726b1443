use vstd::prelude::*;

verus! {

/// A color as a cell stores it: a symbolic palette entry or an explicit RGB triple.
#[derive(Debug, Clone, Copy, PartialEq, Eq)]
pub enum Color {
    /// Use a color from the palette.
    Index(u8),
    /// Use a specific RGB color.
    Rgb([u8; 3]),
}

/// 256 RGB entries that indexed colors resolve against.
pub type Palette = [[u8; 3]; 256];

/// Palette index of the default foreground (and cursor) color.
pub const DEFAULT_FOREGROUND_INDEX: u8 = 15;

/// Palette index of the default background color.
pub const DEFAULT_BACKGROUND_INDEX: u8 = 0;

pub open spec fn default_foreground() -> Color {
    Color::Index(DEFAULT_FOREGROUND_INDEX)
}

pub open spec fn default_background() -> Color {
    Color::Index(DEFAULT_BACKGROUND_INDEX)
}

/// The RGB value of `color` against `palette`.
pub open spec fn resolve(color: Color, palette: Seq<[u8; 3]>) -> [u8; 3] {
    match color {
        Color::Index(i) => palette[i as int],
        Color::Rgb(rgb) => rgb,
    }
}

impl Color {
    /// Resolves the color to RGB: a palette entry for an index, the triple itself otherwise.
    pub fn into_rgb(self, palette: &Palette) -> (r: [u8; 3])
        ensures
            r == resolve(self, palette@),
    {
        match self {
            Color::Index(index) => palette[index as usize],
            Color::Rgb(rgb) => rgb,
        }
    }

    /// The default foreground color.
    pub fn default_foreground() -> (r: Color)
        ensures
            r == default_foreground(),
    {
        Color::Index(DEFAULT_FOREGROUND_INDEX)
    }

    /// The default background color.
    pub fn default_background() -> (r: Color)
        ensures
            r == default_background(),
    {
        Color::Index(DEFAULT_BACKGROUND_INDEX)
    }
}

impl From<[u8; 3]> for Color {
    fn from(rgb: [u8; 3]) -> (r: Color) {
        Color::Rgb(rgb)
    }
}

impl vstd::std_specs::convert::FromSpecImpl<[u8; 3]> for Color {
    open spec fn obeys_from_spec() -> bool {
        true
    }

    open spec fn from_spec(rgb: [u8; 3]) -> Color {
        Color::Rgb(rgb)
    }
}

/// The sixteen named colors at the start of the default palette.
pub open spec fn base_color(i: int) -> [u8; 3] {
    if i == 0 {
        [0x28, 0x28, 0x28]
    } else if i == 1 {
        [0xcc, 0x24, 0x1d]
    } else if i == 2 {
        [0x98, 0x87, 0x1a]
    } else if i == 3 {
        [0xd7, 0x99, 0x21]
    } else if i == 4 {
        [0x45, 0x85, 0x88]
    } else if i == 5 {
        [0xb1, 0x62, 0x86]
    } else if i == 6 {
        [0x68, 0x9d, 0x6a]
    } else if i == 7 {
        [0xa8, 0x99, 0x84]
    } else if i == 8 {
        [0x92, 0x83, 0x74]
    } else if i == 9 {
        [0xfb, 0x49, 0x34]
    } else if i == 10 {
        [0xb8, 0xbb, 0x26]
    } else if i == 11 {
        [0xfa, 0xbd, 0x2f]
    } else if i == 12 {
        [0x83, 0xa5, 0x98]
    } else if i == 13 {
        [0xd3, 0x86, 0x9b]
    } else if i == 14 {
        [0x8e, 0xc0, 0x7c]
    } else {
        [0xeb, 0xdb, 0xb2]
    }
}

/// Level `l` (0 to 5) of one channel of the 6 by 6 by 6 color cube.
pub open spec fn cube_level(l: int) -> u8 {
    (255 * l / 6) as u8
}

/// Entry `i` of the default palette: sixteen named colors, a 6 by 6 by 6 color cube
/// (red, then green, then blue), and 24 steps of gray.
pub open spec fn default_palette_entry(i: int) -> [u8; 3] {
    if i < 16 {
        base_color(i)
    } else if i < 232 {
        let n = i - 16;
        [cube_level(n / 36), cube_level((n / 6) % 6), cube_level(n % 6)]
    } else {
        let g = (255 * (i - 232) / 24) as u8;
        [g, g, g]
    }
}

fn default_palette_color(i: usize) -> (r: [u8; 3])
    requires
        i < 256,
    ensures
        r == default_palette_entry(i as int),
{
    if i < 16 {
        match i {
            0 => [0x28, 0x28, 0x28],
            1 => [0xcc, 0x24, 0x1d],
            2 => [0x98, 0x87, 0x1a],
            3 => [0xd7, 0x99, 0x21],
            4 => [0x45, 0x85, 0x88],
            5 => [0xb1, 0x62, 0x86],
            6 => [0x68, 0x9d, 0x6a],
            7 => [0xa8, 0x99, 0x84],
            8 => [0x92, 0x83, 0x74],
            9 => [0xfb, 0x49, 0x34],
            10 => [0xb8, 0xbb, 0x26],
            11 => [0xfa, 0xbd, 0x2f],
            12 => [0x83, 0xa5, 0x98],
            13 => [0xd3, 0x86, 0x9b],
            14 => [0x8e, 0xc0, 0x7c],
            _ => [0xeb, 0xdb, 0xb2],
        }
    } else if i < 232 {
        let n = i - 16;
        let r = (255 * (n / 36) / 6) as u8;
        let g = (255 * ((n / 6) % 6) / 6) as u8;
        let b = (255 * (n % 6) / 6) as u8;
        [r, g, b]
    } else {
        let g = (255 * (i - 232) / 24) as u8;
        [g, g, g]
    }
}

/// The palette that indexed colors resolve against by default.
pub fn default_palette() -> (r: Palette)
    ensures
        forall|i: int| 0 <= i < 256 ==> #[trigger] r@[i] == default_palette_entry(i),
{
    let mut colors: Palette = [[0u8; 3]; 256];
    let mut i: usize = 0;
    while i < 256
        invariant
            i <= 256,
            forall|j: int| 0 <= j < i ==> #[trigger] colors@[j] == default_palette_entry(j),
        decreases 256 - i,
    {
        colors[i] = default_palette_color(i);
        i = i + 1;
    }
    colors
}

} // verus!
