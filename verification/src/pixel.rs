//! Pixel sample types: four-channel RGBA and three-channel RGB, 8 bits each.

use vstd::prelude::*;

verus! {

/// One four-channel pixel sample: red, green, blue and alpha, 8 bits each.
#[derive(Clone, Copy, Debug, PartialEq, Eq, Structural)]
pub struct Rgba {
    pub r: u8,
    pub g: u8,
    pub b: u8,
    pub a: u8,
}

/// One three-channel pixel sample: red, green and blue, 8 bits each.
#[derive(Clone, Copy, Debug, PartialEq, Eq, Structural)]
pub struct Rgb {
    pub r: u8,
    pub g: u8,
    pub b: u8,
}

/// The reference background color used when none is configured: white with a
/// zero alpha channel.
pub open spec fn white_rgba() -> Rgba {
    Rgba { r: 255, g: 255, b: 255, a: 0 }
}

/// Fully transparent black, the replacement written by the alpha filter.
pub open spec fn transparent_black() -> Rgba {
    Rgba { r: 0, g: 0, b: 0, a: 0 }
}

} // verus!
