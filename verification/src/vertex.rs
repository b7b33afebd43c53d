//! Pipeline vertex data: the immutable mesh vertex handed in by the caller,
//! and the screen-space vertex the transform stage produces.

use vstd::prelude::*;

use crate::matrix::Vec3;

verus! {

/// A model-space mesh vertex: position and outward normal.
#[derive(Clone, Copy, PartialEq, Eq, Structural, Debug)]
pub struct Vertex {
    pub position: Vec3,
    pub normal: Vec3,
}

/// A vertex after the transform stage: `position` holds pixel-unit x and y
/// and a normalized depth in z, `normal` is the normal re-expressed in world
/// space, and `world_position` is the model-matrix image of the position,
/// kept for procedural shading.
#[derive(Clone, Copy, PartialEq, Eq, Structural, Debug)]
pub struct TransformedVertex {
    pub position: Vec3,
    pub normal: Vec3,
    pub world_position: Vec3,
}

} // verus!
