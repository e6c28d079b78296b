use vstd::prelude::*;

verus! {

/// An 8-bit RGB triple.
#[derive(Clone, Copy, Debug, PartialEq, Eq, Structural)]
pub struct ColorRGB {
    pub r: u8,
    pub g: u8,
    pub b: u8,
}

/// One of the six 60-degree sectors of the HSV hexagon, in order of hue:
/// [0,60), [60,120), [120,180), [180,240), [240,300), [300,360).
#[derive(Clone, Copy, Debug, PartialEq, Eq, Structural)]
pub enum HueSector {
    Red,
    Yellow,
    Green,
    Cyan,
    Blue,
    Magenta,
}

/// Position of a sector on the hue circle, counted from red.
pub open spec fn sector_index(s: HueSector) -> int {
    match s {
        HueSector::Red => 0,
        HueSector::Yellow => 1,
        HueSector::Green => 2,
        HueSector::Cyan => 3,
        HueSector::Blue => 4,
        HueSector::Magenta => 5,
    }
}

/// The sector that follows `s` when the hue increases (wrapping at 360 degrees).
pub open spec fn next_sector(s: HueSector) -> HueSector {
    match s {
        HueSector::Red => HueSector::Yellow,
        HueSector::Yellow => HueSector::Green,
        HueSector::Green => HueSector::Cyan,
        HueSector::Cyan => HueSector::Blue,
        HueSector::Blue => HueSector::Magenta,
        HueSector::Magenta => HueSector::Red,
    }
}

/// The hexagonal HSV model: in each sector the chroma ceiling `x`, the
/// secondary channel `y` and the floor `m` go to a fixed permutation of R, G, B.
pub open spec fn hexagon_rgb(s: HueSector, x: int, y: int, m: int) -> (int, int, int) {
    match s {
        HueSector::Red => (x, y, m),
        HueSector::Yellow => (y, x, m),
        HueSector::Green => (m, x, y),
        HueSector::Cyan => (m, y, x),
        HueSector::Blue => (y, m, x),
        HueSector::Magenta => (x, m, y),
    }
}

impl ColorRGB {
    pub open spec fn channels(self) -> (int, int, int) {
        (self.r as int, self.g as int, self.b as int)
    }

    /// Assembles the colour of hue sector `sector` from the truncated HSV
    /// components: `k` the chroma ceiling (255·v), `z` the secondary chroma and
    /// `m` the channel floor. The secondary channel is the sum of the truncated
    /// `z` and `m`, so their sum must fit in a byte; for h, s, v within their
    /// ranges it never exceeds `k`.
    pub fn from_sector(sector: HueSector, k: u8, z: u8, m: u8) -> (c: ColorRGB)
        requires
            z + m <= 255,
        ensures
            c.channels() == hexagon_rgb(sector, k as int, z + m, m as int),
    {
        let x = k;
        let y = z + m;
        match sector {
            HueSector::Red => ColorRGB { r: x, g: y, b: m },
            HueSector::Yellow => ColorRGB { r: y, g: x, b: m },
            HueSector::Green => ColorRGB { r: m, g: x, b: y },
            HueSector::Cyan => ColorRGB { r: m, g: y, b: x },
            HueSector::Blue => ColorRGB { r: y, g: m, b: x },
            HueSector::Magenta => ColorRGB { r: x, g: m, b: y },
        }
    }
}

/// How far the secondary channel stands from where the boundary between
/// `s` and the sector after it puts it. Leaving an even sector the hue reaches
/// the point where the secondary channel meets the chroma ceiling (`z + m == k`);
/// leaving an odd one, where the secondary chroma vanishes (`z == 0`).
pub open spec fn boundary_gap(s: HueSector, k: int, z: int, m: int) -> int {
    if sector_index(s) % 2 == 0 {
        if k >= z + m { k - (z + m) } else { (z + m) - k }
    } else {
        z
    }
}

pub open spec fn abs_diff(a: int, b: int) -> int {
    if a >= b { a - b } else { b - a }
}

/// Across each sector boundary the colour is continuous: the same truncated
/// components assigned by two neighbouring sectors differ in no channel by more
/// than the distance of the secondary channel from its boundary value. In
/// particular, where truncation leaves that distance at one, no channel jumps by
/// more than one.
pub proof fn lemma_sector_boundary_continuity(s: HueSector, k: u8, z: u8, m: u8)
    requires
        z + m <= 255,
    ensures
        ({
            let a = hexagon_rgb(s, k as int, z + m, m as int);
            let b = hexagon_rgb(next_sector(s), k as int, z + m, m as int);
            let g = boundary_gap(s, k as int, z as int, m as int);
            abs_diff(a.0, b.0) <= g && abs_diff(a.1, b.1) <= g && abs_diff(a.2, b.2) <= g
        }),
{
}

/// A colour of value zero is black whatever its hue: with the chroma ceiling,
/// the secondary chroma and the floor all zero, every sector gives (0, 0, 0).
pub proof fn lemma_zero_value_is_black(s: HueSector)
    ensures
        hexagon_rgb(s, 0, 0, 0) == (0int, 0int, 0int),
{
}

} // verus!
