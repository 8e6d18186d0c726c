use vstd::prelude::*;

verus! {

/// Hue, in degrees, of the gradient for orbits that escape early.
pub const COOL_HUE_DEGREES: u32 = 240;

/// Hue, in degrees, of the gradient for orbits that escape late.
pub const WARM_HUE_DEGREES: u32 = 60;

/// An opaque colour as three bytes; the alpha channel is always 255.
#[derive(Clone, Copy, Debug, PartialEq, Eq, Structural)]
pub struct Rgb {
    pub r: u8,
    pub g: u8,
    pub b: u8,
}

/// The colour of points that never escaped.
pub open spec fn black() -> Rgb {
    Rgb { r: 0, g: 0, b: 0 }
}

/// Which half of the gradient an iteration count falls in.
#[derive(Clone, Copy, Debug, PartialEq, Eq, Structural)]
pub enum Shade {
    /// The orbit stayed bounded for the whole budget: painted black.
    Interior,
    /// `iteration / max_iterations <= 1/2`: blue hue, saturation falling,
    /// value rising.
    Cool,
    /// `iteration / max_iterations > 1/2`: yellow hue, saturation rising,
    /// value falling.
    Warm,
}

/// The shade of an iteration count out of a budget of `max_iterations`.
pub open spec fn shade_spec(iteration: nat, max_iterations: nat) -> Shade {
    if iteration >= max_iterations {
        Shade::Interior
    } else if 2 * iteration <= max_iterations {
        Shade::Cool
    } else {
        Shade::Warm
    }
}

/// Picks the half of the gradient for `iteration`. The test on the
/// normalised count `n = iteration / max_iterations <= 0.5` is made exactly,
/// as `2 * iteration <= max_iterations`.
pub fn shade_of(iteration: usize, max_iterations: usize) -> (r: Shade)
    ensures
        r == shade_spec(iteration as nat, max_iterations as nat),
{
    if iteration >= max_iterations {
        Shade::Interior
    } else if iteration <= max_iterations - iteration {
        Shade::Cool
    } else {
        Shade::Warm
    }
}

impl Shade {
    /// The constant hue of this half of the gradient, in degrees; none for
    /// the interior.
    pub fn hue_degrees(self) -> (r: Option<u32>)
        ensures
            self == Shade::Interior ==> r == None::<u32>,
            self == Shade::Cool ==> r == Some(COOL_HUE_DEGREES),
            self == Shade::Warm ==> r == Some(WARM_HUE_DEGREES),
    {
        match self {
            Shade::Interior => None,
            Shade::Cool => Some(COOL_HUE_DEGREES),
            Shade::Warm => Some(WARM_HUE_DEGREES),
        }
    }
}

/// Where the three parts of an HSV to RGB conversion go in one hue sector:
/// the chroma `c`, the intermediate `x` and zero, each given as a channel
/// index (0 red, 1 green, 2 blue).
#[derive(Clone, Copy, Debug, PartialEq, Eq, Structural)]
pub struct SectorLayout {
    pub chroma: usize,
    pub second: usize,
    pub zero: usize,
}

/// The standard sector table: `[0,1): (c, x, 0)`, `[1,2): (x, c, 0)`,
/// `[2,3): (0, c, x)`, `[3,4): (0, x, c)`, `[4,5): (x, 0, c)`,
/// `[5,6): (c, 0, x)`.
pub open spec fn sector_table(sector: nat) -> SectorLayout {
    if sector == 0 {
        SectorLayout { chroma: 0, second: 1, zero: 2 }
    } else if sector == 1 {
        SectorLayout { chroma: 1, second: 0, zero: 2 }
    } else if sector == 2 {
        SectorLayout { chroma: 1, second: 2, zero: 0 }
    } else if sector == 3 {
        SectorLayout { chroma: 2, second: 1, zero: 0 }
    } else if sector == 4 {
        SectorLayout { chroma: 2, second: 0, zero: 1 }
    } else {
        SectorLayout { chroma: 0, second: 2, zero: 1 }
    }
}

/// The channel layout of hue sector `sector` (the integer part of
/// `hue / 60`). The chroma moves one channel on every other sector, and zero
/// sits two channels after it on the way round.
pub fn sector_layout(sector: usize) -> (r: SectorLayout)
    requires
        sector < 6,
    ensures
        r == sector_table(sector as nat),
        r.chroma == ((sector + 1) / 2) % 3,
        r.zero == (sector / 2 + 2) % 3,
        r.chroma + r.second + r.zero == 3,
        r.chroma != r.second && r.second != r.zero && r.zero != r.chroma,
{
    let chroma: usize = ((sector + 1) / 2) % 3;
    let zero: usize = (sector / 2 + 2) % 3;
    let second: usize = 3 - chroma - zero;
    SectorLayout { chroma, second, zero }
}

/// The colour of a pixel whose orbit took `count` iterations, where
/// `palette[i]` is the colour of a count of `i` and every count of
/// `palette.len()` or more belongs to the interior.
pub open spec fn color_spec(count: nat, palette: Seq<Rgb>) -> Rgb {
    if count < palette.len() {
        palette[count as int]
    } else {
        black()
    }
}

/// Looks up the colour of an iteration count in `palette`.
pub fn color_of(count: usize, palette: &Vec<Rgb>) -> (r: Rgb)
    ensures
        r == color_spec(count as nat, palette@),
{
    if count < palette.len() {
        palette[count]
    } else {
        Rgb { r: 0, g: 0, b: 0 }
    }
}

} // verus!

verus! {

/// The number of iterations after which an orbit is taken to be bounded.
pub const MAX_ITERATIONS: usize = 40;

} // verus!
