//! Cells: a colour and a material.

use vstd::prelude::*;

use crate::random::draw_below;

verus! {

/// How a cell moves.
///
/// `Dead` is the empty material, and the only one that another cell may move
/// into. `Gas` and `Solid` never move.
#[derive(Clone, Copy, Debug, PartialEq, Eq, Structural)]
pub enum PixelBehaviour {
    Dead,
    Powder,
    Liquid,
    Gas,
    Solid,
}

/// One cell of the grid: three colour channels and a material.
#[derive(Clone, Copy, Debug, PartialEq, Eq, Structural)]
pub struct Pixel {
    pub r: u8,
    pub g: u8,
    pub b: u8,
    pub behaviour: PixelBehaviour,
}

/// Number of distinct shades of sand.
pub const SAND_SHADES: u8 = 45;

/// Number of distinct shades of water.
pub const WATER_SHADES: u8 = 15;

/// The black cell of the empty material.
pub open spec fn empty_pixel() -> Pixel {
    Pixel { r: 0, g: 0, b: 0, behaviour: PixelBehaviour::Dead }
}

/// The grain of sand of the given shade: red and green share the value
/// `210 + shade`, blue is fixed.
pub open spec fn sand_pixel(shade: int) -> Pixel {
    Pixel {
        r: (210 + shade) as u8,
        g: (210 + shade) as u8,
        b: 180,
        behaviour: PixelBehaviour::Powder,
    }
}

/// The drop of water of the given shade: green and blue are shifted by the
/// same amount, red is absent.
pub open spec fn water_pixel(shade: int) -> Pixel {
    Pixel {
        r: 0,
        g: (90 + shade) as u8,
        b: (190 + shade) as u8,
        behaviour: PixelBehaviour::Liquid,
    }
}

/// Whether `pixel` is a grain of sand of some shade.
pub open spec fn is_sand(pixel: Pixel) -> bool {
    exists|shade: int| 0 <= shade < SAND_SHADES && pixel == #[trigger] sand_pixel(shade)
}

/// Whether `pixel` is a drop of water of some shade.
pub open spec fn is_water(pixel: Pixel) -> bool {
    exists|shade: int| 0 <= shade < WATER_SHADES && pixel == #[trigger] water_pixel(shade)
}

impl Pixel {
    /// The empty cell.
    pub fn empty() -> (pixel: Pixel)
        ensures
            pixel == empty_pixel(),
    {
        Pixel { r: 0, g: 0, b: 0, behaviour: PixelBehaviour::Dead }
    }

    /// The grain of sand of a given shade.
    pub fn sand_of(shade: u8) -> (pixel: Pixel)
        requires
            shade < SAND_SHADES,
        ensures
            pixel == sand_pixel(shade as int),
    {
        let level: u8 = 210 + shade;
        Pixel { r: level, g: level, b: 180, behaviour: PixelBehaviour::Powder }
    }

    /// The drop of water of a given shade.
    pub fn water_of(shade: u8) -> (pixel: Pixel)
        requires
            shade < WATER_SHADES,
        ensures
            pixel == water_pixel(shade as int),
    {
        Pixel { r: 0, g: 90 + shade, b: 190 + shade, behaviour: PixelBehaviour::Liquid }
    }

    /// A grain of sand whose shade is drawn from `rng`.
    pub fn sand(rng: &mut fastrand::Rng) -> (pixel: Pixel)
        ensures
            is_sand(pixel),
    {
        let shade: u8 = draw_below(rng, SAND_SHADES);
        Pixel::sand_of(shade)
    }

    /// A drop of water whose shade is drawn from `rng`.
    pub fn water(rng: &mut fastrand::Rng) -> (pixel: Pixel)
        ensures
            is_water(pixel),
    {
        let shade: u8 = draw_below(rng, WATER_SHADES);
        Pixel::water_of(shade)
    }
}

} // verus!
