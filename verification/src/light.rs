//! The single light source the rasterizer computes per-fragment intensity
//! against.

use vstd::prelude::*;

use crate::matrix::Vec3;

verus! {

/// A point light, immutable for the frame.
#[derive(Clone, Copy, PartialEq, Eq, Structural, Debug)]
pub struct Light {
    pub position: Vec3,
}

impl Light {
    pub fn new(position: Vec3) -> (r: Light)
        ensures
            r == (Light { position }),
    {
        Light { position }
    }
}

} // verus!
