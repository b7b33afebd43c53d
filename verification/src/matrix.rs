//! Fixed-point 3-vectors, homogeneous 4-vectors and 4x4 matrices, with the
//! operations the pipeline needs: subtraction, dot product, normalization,
//! and application of a matrix to a point or a direction.

use vstd::prelude::*;

use crate::fixed::FX_ONE;
use crate::fixed::fx_add;
use crate::fixed::fx_add_e;
use crate::fixed::fx_div;
use crate::fixed::fx_div_e;
use crate::fixed::fx_mul;
use crate::fixed::fx_mul_e;
use crate::fixed::fx_sqrt;
use crate::fixed::fx_sqrt_e;
use crate::fixed::fx_sub;
use crate::fixed::fx_sub_e;

verus! {

/// A 3-component vector of fixed-point scalars.
#[derive(Clone, Copy, PartialEq, Eq, Structural, Debug)]
pub struct Vec3 {
    pub x: i64,
    pub y: i64,
    pub z: i64,
}

/// A homogeneous 4-component vector of fixed-point scalars.
#[derive(Clone, Copy, PartialEq, Eq, Structural, Debug)]
pub struct Vec4 {
    pub x: i64,
    pub y: i64,
    pub z: i64,
    pub w: i64,
}

/// A 4x4 matrix of fixed-point scalars, row-major: `mRC` is row R, column C.
#[derive(Clone, Copy, PartialEq, Eq, Structural, Debug)]
pub struct Mat4 {
    pub m00: i64, pub m01: i64, pub m02: i64, pub m03: i64,
    pub m10: i64, pub m11: i64, pub m12: i64, pub m13: i64,
    pub m20: i64, pub m21: i64, pub m22: i64, pub m23: i64,
    pub m30: i64, pub m31: i64, pub m32: i64, pub m33: i64,
}

pub open spec fn spec_vec3(x: int, y: int, z: int) -> Vec3 {
    Vec3 { x: x as i64, y: y as i64, z: z as i64 }
}

pub open spec fn spec_vsub(a: Vec3, b: Vec3) -> Vec3 {
    spec_vec3(fx_sub(a.x as int, b.x as int), fx_sub(a.y as int, b.y as int), fx_sub(a.z as int, b.z as int))
}

/// The fixed-point dot product, saturated pairwise like the executable code.
pub open spec fn spec_vdot(a: Vec3, b: Vec3) -> int {
    fx_add(
        fx_add(fx_mul(a.x as int, b.x as int), fx_mul(a.y as int, b.y as int)),
        fx_mul(a.z as int, b.z as int),
    )
}

/// The fixed-point length of a vector.
pub open spec fn spec_vlen(a: Vec3) -> int {
    fx_sqrt(spec_vdot(a, a))
}

/// Normalization; the zero-length case yields the zero vector.
pub open spec fn spec_vnorm(a: Vec3) -> Vec3 {
    let len = spec_vlen(a);
    if len == 0 {
        Vec3 { x: 0, y: 0, z: 0 }
    } else {
        spec_vec3(
            fx_div(a.x as int, len),
            fx_div(a.y as int, len),
            fx_div(a.z as int, len),
        )
    }
}

/// One row of a matrix applied to a homogeneous vector.
pub open spec fn spec_row(a: int, b: int, c: int, d: int, v: Vec4) -> int {
    fx_add(
        fx_add(fx_mul(a, v.x as int), fx_mul(b, v.y as int)),
        fx_add(fx_mul(c, v.z as int), fx_mul(d, v.w as int)),
    )
}

/// A matrix applied to a homogeneous vector.
pub open spec fn spec_mat_apply(m: Mat4, v: Vec4) -> Vec4 {
    Vec4 {
        x: spec_row(m.m00 as int, m.m01 as int, m.m02 as int, m.m03 as int, v) as i64,
        y: spec_row(m.m10 as int, m.m11 as int, m.m12 as int, m.m13 as int, v) as i64,
        z: spec_row(m.m20 as int, m.m21 as int, m.m22 as int, m.m23 as int, v) as i64,
        w: spec_row(m.m30 as int, m.m31 as int, m.m32 as int, m.m33 as int, v) as i64,
    }
}

/// A matrix applied to a point (homogeneous coordinate one).
pub open spec fn spec_mat_apply_point(m: Mat4, v: Vec3) -> Vec4 {
    spec_mat_apply(m, Vec4 { x: v.x, y: v.y, z: v.z, w: FX_ONE })
}

/// A matrix applied to a direction (homogeneous coordinate zero): the
/// orientation part alone, without translation.
pub open spec fn spec_mat_apply_dir(m: Mat4, v: Vec3) -> Vec3 {
    let r = spec_mat_apply(m, Vec4 { x: v.x, y: v.y, z: v.z, w: 0 });
    Vec3 { x: r.x, y: r.y, z: r.z }
}

/// The identity matrix.
pub open spec fn spec_mat_identity() -> Mat4 {
    Mat4 {
        m00: FX_ONE, m01: 0, m02: 0, m03: 0,
        m10: 0, m11: FX_ONE, m12: 0, m13: 0,
        m20: 0, m21: 0, m22: FX_ONE, m23: 0,
        m30: 0, m31: 0, m32: 0, m33: FX_ONE,
    }
}

pub fn vsub(a: Vec3, b: Vec3) -> (r: Vec3)
    ensures
        r == spec_vsub(a, b),
{
    Vec3 { x: fx_sub_e(a.x, b.x), y: fx_sub_e(a.y, b.y), z: fx_sub_e(a.z, b.z) }
}

pub fn vdot(a: Vec3, b: Vec3) -> (r: i64)
    ensures
        r as int == spec_vdot(a, b),
{
    fx_add_e(fx_add_e(fx_mul_e(a.x, b.x), fx_mul_e(a.y, b.y)), fx_mul_e(a.z, b.z))
}

pub fn vlen(a: Vec3) -> (r: i64)
    ensures
        r as int == spec_vlen(a),
{
    fx_sqrt_e(vdot(a, a))
}

pub fn vnorm(a: Vec3) -> (r: Vec3)
    ensures
        r == spec_vnorm(a),
{
    let len = vlen(a);
    if len == 0 {
        Vec3 { x: 0, y: 0, z: 0 }
    } else {
        Vec3 { x: fx_div_e(a.x, len), y: fx_div_e(a.y, len), z: fx_div_e(a.z, len) }
    }
}

fn row_apply(a: i64, b: i64, c: i64, d: i64, v: Vec4) -> (r: i64)
    ensures
        r as int == spec_row(a as int, b as int, c as int, d as int, v),
{
    fx_add_e(
        fx_add_e(fx_mul_e(a, v.x), fx_mul_e(b, v.y)),
        fx_add_e(fx_mul_e(c, v.z), fx_mul_e(d, v.w)),
    )
}

pub fn mat_apply(m: &Mat4, v: Vec4) -> (r: Vec4)
    ensures
        r == spec_mat_apply(*m, v),
{
    Vec4 {
        x: row_apply(m.m00, m.m01, m.m02, m.m03, v),
        y: row_apply(m.m10, m.m11, m.m12, m.m13, v),
        z: row_apply(m.m20, m.m21, m.m22, m.m23, v),
        w: row_apply(m.m30, m.m31, m.m32, m.m33, v),
    }
}

pub fn mat_apply_point(m: &Mat4, v: Vec3) -> (r: Vec4)
    ensures
        r == spec_mat_apply_point(*m, v),
{
    mat_apply(m, Vec4 { x: v.x, y: v.y, z: v.z, w: FX_ONE })
}

pub fn mat_apply_dir(m: &Mat4, v: Vec3) -> (r: Vec3)
    ensures
        r == spec_mat_apply_dir(*m, v),
{
    let r = mat_apply(m, Vec4 { x: v.x, y: v.y, z: v.z, w: 0 });
    Vec3 { x: r.x, y: r.y, z: r.z }
}

pub fn mat_identity() -> (r: Mat4)
    ensures
        r == spec_mat_identity(),
{
    Mat4 {
        m00: FX_ONE, m01: 0, m02: 0, m03: 0,
        m10: 0, m11: FX_ONE, m12: 0, m13: 0,
        m20: 0, m21: 0, m22: FX_ONE, m23: 0,
        m30: 0, m31: 0, m32: 0, m33: FX_ONE,
    }
}

} // verus!
