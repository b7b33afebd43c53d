//! The programmable stages: the vertex shader (model, view, projection and
//! viewport transforms with the perspective divide) and the per-fragment
//! procedural shader dispatched over the material variant.

use vstd::prelude::*;

use crate::Uniforms;
use crate::fixed::FX_ONE;
use crate::fixed::clamp_int;
use crate::fixed::fx_add;
use crate::fixed::fx_add_e;
use crate::fixed::fx_div;
use crate::fixed::fx_div_e;
use crate::fixed::fx_mul;
use crate::fixed::fx_mul_e;
use crate::fixed::fx_sub;
use crate::fixed::fx_sub_e;
use crate::fixed::tdiv;
use crate::fixed::tdiv_e;
use crate::fragment::Color;
use crate::fragment::Fragment;
use crate::matrix::Vec3;
use crate::matrix::Vec4;
use crate::matrix::mat_apply;
use crate::matrix::mat_apply_dir;
use crate::matrix::mat_apply_point;
use crate::matrix::spec_mat_apply;
use crate::matrix::spec_mat_apply_dir;
use crate::matrix::spec_mat_apply_point;
use crate::matrix::spec_vec3;
use crate::vertex::TransformedVertex;
use crate::vertex::Vertex;

verus! {

/// The closed set of procedural surface appearances a draw call selects.
#[derive(Clone, Copy, PartialEq, Eq, Structural, Debug)]
pub enum PlanetType {
    Rocky,
    GasGiant,
    SciFi,
    Ice,
    Volcanic,
    Sun,
    Ring,
    Moon,
}

/// What the transform stage does to one vertex: the position runs through
/// model, view and projection, takes the perspective divide (a zero
/// homogeneous coordinate yields the origin instead of dividing), and is
/// mapped to pixels by the viewport matrix; the normal is transformed by the
/// model matrix's orientation alone; the model-space position's model-matrix
/// image is kept as the world position for procedural shading.
pub open spec fn spec_vertex_shader(v: Vertex, u: Uniforms) -> TransformedVertex {
    let world = spec_mat_apply_point(u.model_matrix, v.position);
    let viewed = spec_mat_apply(u.view_matrix, world);
    let clip = spec_mat_apply(u.projection_matrix, viewed);
    let ndc = if clip.w == 0 {
        Vec3 { x: 0, y: 0, z: 0 }
    } else {
        spec_vec3(
            fx_div(clip.x as int, clip.w as int),
            fx_div(clip.y as int, clip.w as int),
            fx_div(clip.z as int, clip.w as int),
        )
    };
    let screen = spec_mat_apply_point(u.viewport_matrix, ndc);
    TransformedVertex {
        position: Vec3 { x: screen.x, y: screen.y, z: screen.z },
        normal: spec_mat_apply_dir(u.model_matrix, v.normal),
        world_position: Vec3 { x: world.x, y: world.y, z: world.z },
    }
}

/// The standard transform stage for lit bodies.
pub fn vertex_shader(v: &Vertex, u: &Uniforms) -> (r: TransformedVertex)
    ensures
        r == spec_vertex_shader(*v, *u),
{
    let world: Vec4 = mat_apply_point(&u.model_matrix, v.position);
    let viewed: Vec4 = mat_apply(&u.view_matrix, world);
    let clip: Vec4 = mat_apply(&u.projection_matrix, viewed);
    let ndc: Vec3 = if clip.w == 0 {
        Vec3 { x: 0, y: 0, z: 0 }
    } else {
        Vec3 {
            x: fx_div_e(clip.x, clip.w),
            y: fx_div_e(clip.y, clip.w),
            z: fx_div_e(clip.z, clip.w),
        }
    };
    let screen: Vec4 = mat_apply_point(&u.viewport_matrix, ndc);
    TransformedVertex {
        position: Vec3 { x: screen.x, y: screen.y, z: screen.z },
        normal: mat_apply_dir(&u.model_matrix, v.normal),
        world_position: Vec3 { x: world.x, y: world.y, z: world.z },
    }
}

/// The transform stage for the emissive body.  The emissive appearance needs
/// no lighting-only work, but position, normal and world position must still
/// be populated consistently, so this variant performs the same transform.
pub fn vertex_shader_sun(v: &Vertex, u: &Uniforms) -> (r: TransformedVertex)
    ensures
        r == spec_vertex_shader(*v, *u),
{
    vertex_shader(v, u)
}

/// The ambient floor: unlit sides keep a fifth of the surface color.
pub const AMBIENT: i64 = 13107;

/// Light intensity clamped into [0, FX_ONE].
pub open spec fn clamp01_fx(i: int) -> int {
    clamp_int(i, 0, FX_ONE as int)
}

/// The lighting factor a lit variant multiplies its palette by: the ambient
/// floor plus the clamped intensity scaled into the remaining headroom.
pub open spec fn spec_light_factor(i: int) -> int {
    AMBIENT + tdiv((FX_ONE - AMBIENT) * clamp01_fx(i), FX_ONE as int)
}

/// One 8-bit channel scaled by a lighting factor and clamped.
pub open spec fn spec_lit_channel(base: int, lf: int) -> int {
    clamp_int(tdiv(base * lf, FX_ONE as int), 0, 255)
}

/// A deterministic integer hash of two fixed-point coordinates, folded to
/// [0, 255]; the noise source for all procedural variation.
pub open spec fn spec_cell_noise(a: int, b: int) -> int {
    let ua = a as u64;
    let ub = b as u64;
    let h = (ua ^ (ub << 16)) ^ ((ua >> 7) ^ (ub >> 3)) ^ ((ua >> 17) ^ (ub >> 11));
    (h & 0xff) as int
}

pub fn light_factor(i: i64) -> (r: i64)
    ensures
        r as int == spec_light_factor(i as int),
        AMBIENT <= r <= FX_ONE,
{
    let c: u64 = if i < 0 {
        0
    } else if i > FX_ONE {
        FX_ONE as u64
    } else {
        i as u64
    };
    let k: u64 = (FX_ONE - AMBIENT) as u64;
    proof {
        assert((k as int) * (c as int) <= 0x1_0000_0000_0000) by (nonlinear_arith)
            requires
                k as int <= 65536,
                c as int <= 65536;
        assert((k as int) * (c as int) / 65536 <= 65536) by (nonlinear_arith)
            requires
                0 <= (k as int) * (c as int) <= 0x1_0000_0000_0000,
                k as int <= 52429,
                c as int <= 65536;
    }
    let scaled: u64 = (k * c) / (FX_ONE as u64);
    AMBIENT + scaled as i64
}

pub fn lit_channel(base: i64, lf: i64) -> (r: u8)
    requires
        0 <= base <= 1024,
        0 <= lf <= FX_ONE,
    ensures
        r as int == spec_lit_channel(base as int, lf as int),
{
    let bu: u64 = base as u64;
    let lu: u64 = lf as u64;
    proof {
        assert((bu as int) * (lu as int) <= 0x10_0000_0000) by (nonlinear_arith)
            requires
                bu as int <= 1024,
                lu as int <= 65536;
    }
    let p: u64 = (bu * lu) / (FX_ONE as u64);
    if p > 255 {
        255
    } else {
        p as u8
    }
}

pub fn cell_noise(a: i64, b: i64) -> (r: i64)
    ensures
        r as int == spec_cell_noise(a as int, b as int),
        0 <= r <= 255,
{
    let ua: u64 = a as u64;
    let ub: u64 = b as u64;
    let h: u64 = (ua ^ (ub << 16)) ^ ((ua >> 7) ^ (ub >> 3)) ^ ((ua >> 17) ^ (ub >> 11));
    let m: u64 = h & 0xff;
    assert(m <= 0xff) by (bit_vector)
        requires
            m == h & 0xff;
    m as i64
}

/// The coarse grid cell a fixed-point coordinate falls in, for cell noise.
pub open spec fn spec_coarse(c: int) -> int {
    tdiv(c, 16384)
}

/// Whether a band index is even; the banded variants alternate palettes on it.
pub open spec fn spec_even(v: int) -> bool {
    ((v as i64) & 1) == 0
}

/// What the fragment shader returns for every fragment, material variant and
/// time: a total function with a defined color for every input.  The Sun
/// variant is emissive and reads only the world position and the time; every
/// other variant multiplies its procedural palette by the lighting factor.
pub open spec fn spec_shade(f: Fragment, time: int, p: PlanetType) -> Color {
    let wp = f.world_position;
    let lf = spec_light_factor(f.intensity as int);
    match p {
        PlanetType::Rocky => {
            let n = spec_cell_noise(spec_coarse(wp.x as int), spec_coarse(wp.z as int));
            let d = tdiv(n, 8);
            Color {
                r: spec_lit_channel(150 + d, lf) as u8,
                g: spec_lit_channel(110 + d, lf) as u8,
                b: spec_lit_channel(85, lf) as u8,
            }
        },
        PlanetType::GasGiant => {
            if spec_even(tdiv(wp.y as int, 16384)) {
                Color {
                    r: spec_lit_channel(205, lf) as u8,
                    g: spec_lit_channel(160, lf) as u8,
                    b: spec_lit_channel(110, lf) as u8,
                }
            } else {
                Color {
                    r: spec_lit_channel(160, lf) as u8,
                    g: spec_lit_channel(115, lf) as u8,
                    b: spec_lit_channel(75, lf) as u8,
                }
            }
        },
        PlanetType::SciFi => {
            if spec_even(tdiv(wp.x as int, 8192)) == spec_even(tdiv(wp.z as int, 8192)) {
                Color {
                    r: spec_lit_channel(35, lf) as u8,
                    g: spec_lit_channel(45, lf) as u8,
                    b: spec_lit_channel(65, lf) as u8,
                }
            } else {
                Color {
                    r: spec_lit_channel(85, lf) as u8,
                    g: spec_lit_channel(255, lf) as u8,
                    b: spec_lit_channel(200, lf) as u8,
                }
            }
        },
        PlanetType::Ice => {
            let n = spec_cell_noise(spec_coarse(wp.x as int), spec_coarse(wp.z as int));
            let d = tdiv(n, 16);
            Color {
                r: spec_lit_channel(230 - d, lf) as u8,
                g: spec_lit_channel(240 - d, lf) as u8,
                b: spec_lit_channel(255, lf) as u8,
            }
        },
        PlanetType::Volcanic => {
            let n = spec_cell_noise(spec_coarse(wp.x as int), spec_coarse(wp.z as int));
            if n > 200 {
                Color {
                    r: spec_lit_channel(255, lf) as u8,
                    g: spec_lit_channel(120, lf) as u8,
                    b: spec_lit_channel(0, lf) as u8,
                }
            } else {
                Color {
                    r: spec_lit_channel(70, lf) as u8,
                    g: spec_lit_channel(35, lf) as u8,
                    b: spec_lit_channel(25, lf) as u8,
                }
            }
        },
        PlanetType::Sun => {
            let n = spec_cell_noise(
                fx_add(wp.x as int, time),
                fx_sub(wp.z as int, time),
            );
            Color { r: 255, g: (170 + tdiv(n, 4)) as u8, b: tdiv(n, 2) as u8 }
        },
        PlanetType::Ring => {
            let r2 = fx_add(
                fx_mul(wp.x as int, wp.x as int),
                fx_mul(wp.z as int, wp.z as int),
            );
            if spec_even(tdiv(r2, 32768)) {
                Color {
                    r: spec_lit_channel(220, lf) as u8,
                    g: spec_lit_channel(200, lf) as u8,
                    b: spec_lit_channel(170, lf) as u8,
                }
            } else {
                Color {
                    r: spec_lit_channel(140, lf) as u8,
                    g: spec_lit_channel(120, lf) as u8,
                    b: spec_lit_channel(95, lf) as u8,
                }
            }
        },
        PlanetType::Moon => {
            let n = spec_cell_noise(spec_coarse(wp.x as int), spec_coarse(wp.z as int));
            let d = tdiv(n, 8);
            Color {
                r: spec_lit_channel(160 + d, lf) as u8,
                g: spec_lit_channel(160 + d, lf) as u8,
                b: spec_lit_channel(165, lf) as u8,
            }
        },
    }
}

fn coarse(c: i64) -> (r: i64)
    ensures
        r as int == spec_coarse(c as int),
{
    tdiv_e(c, 16384)
}

fn is_even(v: i64) -> (r: bool)
    ensures
        r == spec_even(v as int),
{
    v & 1 == 0
}

/// The fragment shader: total over every fragment, material variant and
/// time, with no failure mode; the result is pinned by `spec_shade`.
pub fn fragment_shader_planet(fragment: &Fragment, uniforms: &Uniforms, planet_type: PlanetType) -> (c: Color)
    ensures
        c == spec_shade(*fragment, uniforms.time as int, planet_type),
{
    let wp = fragment.world_position;
    let lf: i64 = light_factor(fragment.intensity);
    match planet_type {
        PlanetType::Rocky => {
            let n: i64 = cell_noise(coarse(wp.x), coarse(wp.z));
            let d: i64 = tdiv_e(n, 8);
            Color {
                r: lit_channel(150 + d, lf),
                g: lit_channel(110 + d, lf),
                b: lit_channel(85, lf),
            }
        },
        PlanetType::GasGiant => {
            if is_even(tdiv_e(wp.y, 16384)) {
                Color { r: lit_channel(205, lf), g: lit_channel(160, lf), b: lit_channel(110, lf) }
            } else {
                Color { r: lit_channel(160, lf), g: lit_channel(115, lf), b: lit_channel(75, lf) }
            }
        },
        PlanetType::SciFi => {
            if is_even(tdiv_e(wp.x, 8192)) == is_even(tdiv_e(wp.z, 8192)) {
                Color { r: lit_channel(35, lf), g: lit_channel(45, lf), b: lit_channel(65, lf) }
            } else {
                Color { r: lit_channel(85, lf), g: lit_channel(255, lf), b: lit_channel(200, lf) }
            }
        },
        PlanetType::Ice => {
            let n: i64 = cell_noise(coarse(wp.x), coarse(wp.z));
            let d: i64 = tdiv_e(n, 16);
            proof {
                assert(tdiv(n as int, 16) == n as int / 16);
                assert(n as int / 16 <= 15);
            }
            Color {
                r: lit_channel(230 - d, lf),
                g: lit_channel(240 - d, lf),
                b: lit_channel(255, lf),
            }
        },
        PlanetType::Volcanic => {
            let n: i64 = cell_noise(coarse(wp.x), coarse(wp.z));
            if n > 200 {
                Color { r: lit_channel(255, lf), g: lit_channel(120, lf), b: lit_channel(0, lf) }
            } else {
                Color { r: lit_channel(70, lf), g: lit_channel(35, lf), b: lit_channel(25, lf) }
            }
        },
        PlanetType::Sun => {
            let n: i64 = cell_noise(
                fx_add_e(wp.x, uniforms.time),
                fx_sub_e(wp.z, uniforms.time),
            );
            let g: i64 = 170 + tdiv_e(n, 4);
            let b: i64 = tdiv_e(n, 2);
            proof {
                assert(tdiv(n as int, 4) == n as int / 4);
                assert(tdiv(n as int, 2) == n as int / 2);
                assert(n as int / 4 <= 63 && n as int / 2 <= 127);
            }
            Color { r: 255, g: g as u8, b: b as u8 }
        },
        PlanetType::Ring => {
            let r2: i64 = fx_add_e(fx_mul_e(wp.x, wp.x), fx_mul_e(wp.z, wp.z));
            if is_even(tdiv_e(r2, 32768)) {
                Color { r: lit_channel(220, lf), g: lit_channel(200, lf), b: lit_channel(170, lf) }
            } else {
                Color { r: lit_channel(140, lf), g: lit_channel(120, lf), b: lit_channel(95, lf) }
            }
        },
        PlanetType::Moon => {
            let n: i64 = cell_noise(coarse(wp.x), coarse(wp.z));
            let d: i64 = tdiv_e(n, 8);
            Color {
                r: lit_channel(160 + d, lf),
                g: lit_channel(160 + d, lf),
                b: lit_channel(165, lf),
            }
        },
    }
}

/// The emissive variant ignores incoming light: two fragments with the same
/// world position shade identically under the Sun variant at the same time,
/// whatever their light intensities (and all their other attributes) are.
pub proof fn lemma_sun_ignores_intensity(f1: Fragment, f2: Fragment, time: int)
    requires
        f1.world_position == f2.world_position,
    ensures
        spec_shade(f1, time, PlanetType::Sun) == spec_shade(f2, time, PlanetType::Sun),
{
}

} // verus!

