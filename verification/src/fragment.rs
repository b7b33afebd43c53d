//! Fragments and colors: the candidate pixel contributions the rasterizer
//! emits, and the 8-bit color channel triples the shader produces.

use vstd::prelude::*;

use crate::matrix::Vec3;

verus! {

/// An 8-bit-per-channel color.
#[derive(Clone, Copy, PartialEq, Eq, Structural, Debug)]
pub struct Color {
    pub r: u8,
    pub g: u8,
    pub b: u8,
}

impl Color {
    pub fn new(r: u8, g: u8, b: u8) -> (c: Color)
        ensures
            c == (Color { r, g, b }),
    {
        Color { r, g, b }
    }
}

/// One candidate pixel contribution from rasterizing a triangle: the pixel
/// coordinate, the interpolated depth, normal and world position, and the
/// light intensity at the pixel (fixed-point, in [0, FX_ONE]).
#[derive(Clone, Copy, PartialEq, Eq, Structural, Debug)]
pub struct Fragment {
    pub x: usize,
    pub y: usize,
    pub depth: i64,
    pub normal: Vec3,
    pub world_position: Vec3,
    pub intensity: i64,
}

} // verus!
