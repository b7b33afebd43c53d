//! A software 3D rendering pipeline in fixed-point arithmetic: vertex
//! transformation, triangle assembly, scan-conversion into fragments,
//! procedural per-fragment shading, and depth-tested pixel writes into a
//! framebuffer.

use vstd::prelude::*;

pub mod fixed;
pub mod framebuffer;
pub mod fragment;
pub mod light;
pub mod matrix;
pub mod shaders;
pub mod triangle;
pub mod vertex;

use crate::framebuffer::FbModel;
use crate::framebuffer::Framebuffer;
use crate::framebuffer::fb_wf;
use crate::framebuffer::point_spec;
use crate::fragment::Fragment;
use crate::light::Light;
use crate::matrix::Mat4;
use crate::shaders::PlanetType;
use crate::shaders::fragment_shader_planet;
use crate::shaders::spec_shade;
use crate::shaders::spec_vertex_shader;
use crate::shaders::vertex_shader;
use crate::shaders::vertex_shader_sun;
use crate::triangle::spec_triangle_frags;
use crate::triangle::triangle;
use crate::vertex::TransformedVertex;
use crate::vertex::Vertex;

verus! {

/// The per-draw-call snapshot of the transform stack and the elapsed time,
/// created fresh per object per frame and never mutated mid-pipeline.  The
/// time is a fixed-point scalar like every other quantity in the pipeline.
#[derive(Clone, Copy, PartialEq, Eq, Structural, Debug)]
pub struct Uniforms {
    pub model_matrix: Mat4,
    pub view_matrix: Mat4,
    pub projection_matrix: Mat4,
    pub viewport_matrix: Mat4,
    pub time: i64,
}

/// Exactly three transformed vertices in winding order, grouped from a
/// consecutive run of the transformed vertex array.
#[derive(Clone, Copy, PartialEq, Eq, Structural, Debug)]
pub struct Triangle {
    pub v0: TransformedVertex,
    pub v1: TransformedVertex,
    pub v2: TransformedVertex,
}

/// The whole vertex array after the transform stage.
pub open spec fn spec_transformed(verts: Seq<Vertex>, u: Uniforms) -> Seq<TransformedVertex> {
    Seq::new(verts.len(), |i: int| spec_vertex_shader(verts[i], u))
}

/// Primitive assembly: group consecutive runs of three transformed vertices
/// into triangles; a trailing partial group is silently discarded.
pub fn assemble_triangles(tv: &Vec<TransformedVertex>) -> (r: Vec<Triangle>)
    ensures
        r@.len() == tv@.len() / 3,
        forall|k: int|
            0 <= k < r@.len() ==> r@[k] == (Triangle {
                v0: tv@[3 * k],
                v1: tv@[3 * k + 1],
                v2: tv@[3 * k + 2],
            }),
{
    let mut r: Vec<Triangle> = Vec::new();
    let mut i: usize = 0;
    while tv.len() - i >= 3
        invariant
            i == 3 * r@.len(),
            i <= tv@.len(),
            forall|k: int|
                0 <= k < r@.len() ==> r@[k] == (Triangle {
                    v0: tv@[3 * k],
                    v1: tv@[3 * k + 1],
                    v2: tv@[3 * k + 2],
                }),
        decreases tv@.len() - i,
    {
        r.push(Triangle { v0: tv[i], v1: tv[i + 1], v2: tv[i + 2] });
        i = i + 3;
    }
    proof {
        vstd::arithmetic::div_mod::lemma_fundamental_div_mod_converse(
            tv@.len() as int,
            3,
            r@.len() as int,
            tv@.len() - 3 * r@.len(),
        );
    }
    r
}

/// The framebuffer after writing one shaded fragment sequence through the
/// depth test, front to back along the sequence.
pub open spec fn spec_draw_frags(m: FbModel, frags: Seq<Fragment>, time: int, p: PlanetType) -> FbModel
    decreases frags.len(),
{
    if frags.len() == 0 {
        m
    } else {
        let f = frags[0];
        let m1 = point_spec(m, f.x as int, f.y as int, spec_shade(f, time, p), f.depth as int);
        spec_draw_frags(m1, frags.drop_first(), time, p)
    }
}

/// The framebuffer after rasterizing and shading triangles k..n of the
/// transformed vertex array.
pub open spec fn spec_draw_tris(
    m: FbModel,
    tv: Seq<TransformedVertex>,
    light: Light,
    width: int,
    height: int,
    time: int,
    p: PlanetType,
    k: int,
    n: int,
) -> FbModel
    decreases n - k,
{
    if k >= n {
        m
    } else {
        let frags = spec_triangle_frags(tv[3 * k], tv[3 * k + 1], tv[3 * k + 2], light, width, height);
        spec_draw_tris(spec_draw_frags(m, frags, time, p), tv, light, width, height, time, p, k + 1, n)
    }
}

/// What one draw call does to the framebuffer: transform every vertex,
/// assemble consecutive triples into triangles, rasterize each into
/// fragments, shade every fragment with the selected material, and submit
/// each result to the depth-tested pixel write.
pub open spec fn spec_render(
    m: FbModel,
    u: Uniforms,
    verts: Seq<Vertex>,
    light: Light,
    p: PlanetType,
) -> FbModel {
    let tv = spec_transformed(verts, u);
    spec_draw_tris(m, tv, light, m.width, m.height, u.time as int, p, 0, tv.len() as int / 3)
}

proof fn lemma_draw_frags_snoc(m: FbModel, s: Seq<Fragment>, f: Fragment, time: int, p: PlanetType)
    ensures
        spec_draw_frags(m, s.push(f), time, p) == point_spec(
            spec_draw_frags(m, s, time, p),
            f.x as int,
            f.y as int,
            spec_shade(f, time, p),
            f.depth as int,
        ),
    decreases s.len(),
{
    let one = s.push(f);
    if s.len() == 0 {
        assert(one.len() == 1);
        assert(one[0] == f);
        assert(one.drop_first() =~= Seq::<Fragment>::empty());
        let mp = point_spec(m, f.x as int, f.y as int, spec_shade(f, time, p), f.depth as int);
        assert(spec_draw_frags(mp, one.drop_first(), time, p) == mp);
        assert(spec_draw_frags(m, one, time, p) == mp);
        assert(spec_draw_frags(m, s, time, p) == m);
    } else {
        assert(one[0] == s[0]);
        assert(one.drop_first() =~= s.drop_first().push(f));
        let m1 = point_spec(m, s[0].x as int, s[0].y as int, spec_shade(s[0], time, p), s[0].depth as int);
        lemma_draw_frags_snoc(m1, s.drop_first(), f, time, p);
        assert(spec_draw_frags(m, one, time, p) == spec_draw_frags(m1, one.drop_first(), time, p));
        assert(spec_draw_frags(m, s, time, p) == spec_draw_frags(m1, s.drop_first(), time, p));
    }
}

proof fn lemma_draw_tris_snoc(
    m: FbModel,
    tv: Seq<TransformedVertex>,
    light: Light,
    width: int,
    height: int,
    time: int,
    p: PlanetType,
    k0: int,
    k: int,
)
    requires
        k0 <= k,
    ensures
        spec_draw_tris(m, tv, light, width, height, time, p, k0, k + 1) == spec_draw_frags(
            spec_draw_tris(m, tv, light, width, height, time, p, k0, k),
            spec_triangle_frags(tv[3 * k], tv[3 * k + 1], tv[3 * k + 2], light, width, height),
            time,
            p,
        ),
    decreases k - k0,
{
    let frags0 = spec_triangle_frags(tv[3 * k0], tv[3 * k0 + 1], tv[3 * k0 + 2], light, width, height);
    let mstep = spec_draw_frags(m, frags0, time, p);
    if k0 == k {
        assert(spec_draw_tris(m, tv, light, width, height, time, p, k0, k0) == m);
        assert(spec_draw_tris(mstep, tv, light, width, height, time, p, k0 + 1, k0 + 1) == mstep);
        assert(spec_draw_tris(m, tv, light, width, height, time, p, k0, k0 + 1) == mstep);
    } else {
        lemma_draw_tris_snoc(mstep, tv, light, width, height, time, p, k0 + 1, k);
        assert(spec_draw_tris(m, tv, light, width, height, time, p, k0, k + 1) == spec_draw_tris(
            mstep, tv, light, width, height, time, p, k0 + 1, k + 1,
        ));
        assert(spec_draw_tris(m, tv, light, width, height, time, p, k0, k) == spec_draw_tris(
            mstep, tv, light, width, height, time, p, k0 + 1, k,
        ));
    }
}

/// The pipeline shared by both drivers; `emissive` selects the transform
/// variant, which performs the same transform either way.
#[verifier::rlimit(100)]
fn render_core(
    framebuffer: &mut Framebuffer,
    uniforms: &Uniforms,
    vertex_array: &Vec<Vertex>,
    light: &Light,
    planet_type: PlanetType,
    emissive: bool,
)
    requires
        fb_wf(old(framebuffer)@),
    ensures
        fb_wf(final(framebuffer)@),
        final(framebuffer)@ == spec_render(
            old(framebuffer)@,
            *uniforms,
            vertex_array@,
            *light,
            planet_type,
        ),
{
    let ghost m0: FbModel = framebuffer@;
    let width: usize = framebuffer.width();
    let height: usize = framebuffer.height();

    // Vertex shader stage.
    let mut transformed: Vec<TransformedVertex> = Vec::new();
    let mut i: usize = 0;
    while i < vertex_array.len()
        invariant
            i <= vertex_array@.len(),
            transformed@.len() == i,
            forall|j: int|
                0 <= j < i ==> transformed@[j] == spec_vertex_shader(vertex_array@[j], *uniforms),
        decreases vertex_array@.len() - i,
    {
        let t = if emissive {
            vertex_shader_sun(&vertex_array[i], uniforms)
        } else {
            vertex_shader(&vertex_array[i], uniforms)
        };
        transformed.push(t);
        i = i + 1;
    }
    proof {
        assert(transformed@ =~= spec_transformed(vertex_array@, *uniforms));
    }
    let ghost tv: Seq<TransformedVertex> = transformed@;

    // Primitive assembly stage.
    let triangles: Vec<Triangle> = assemble_triangles(&transformed);

    // Rasterization and fragment stages, one triangle at a time.
    let mut k: usize = 0;
    while k < triangles.len()
        invariant
            k <= triangles@.len(),
            triangles@.len() == tv.len() as int / 3,
            forall|q: int|
                0 <= q < triangles@.len() ==> triangles@[q] == (Triangle {
                    v0: tv[3 * q],
                    v1: tv[3 * q + 1],
                    v2: tv[3 * q + 2],
                }),
            fb_wf(m0),
            fb_wf(framebuffer@),
            width as int == m0.width,
            height as int == m0.height,
            framebuffer@ == spec_draw_tris(
                m0, tv, *light,
                m0.width, m0.height,
                uniforms.time as int, planet_type,
                0, k as int,
            ),
        decreases triangles@.len() - k,
    {
        let tri = &triangles[k];
        let frags: Vec<Fragment> = triangle(&tri.v0, &tri.v1, &tri.v2, light, width, height);
        let ghost mk: FbModel = framebuffer@;
        let mut j: usize = 0;
        while j < frags.len()
            invariant
                j <= frags@.len(),
                fb_wf(m0),
                fb_wf(framebuffer@),
                width as int == m0.width,
                height as int == m0.height,
                forall|i: int|
                    0 <= i < frags@.len() ==> (#[trigger] frags@[i]).x < width && frags@[i].y < height,
                frags@ == spec_triangle_frags(
                    tv[3 * (k as int)], tv[3 * (k as int) + 1], tv[3 * (k as int) + 2],
                    *light, m0.width, m0.height,
                ),
                framebuffer@ == spec_draw_frags(
                    mk, frags@.take(j as int), uniforms.time as int, planet_type,
                ),
            decreases frags@.len() - j,
        {
            let frag = frags[j];
            let color = fragment_shader_planet(&frag, uniforms, planet_type);
            framebuffer.point(frag.x as i64, frag.y as i64, color, frag.depth);
            proof {
                assert((frag.x as i64) as int == frag.x as int);
                assert((frag.y as i64) as int == frag.y as int);
                assert(frags@.take(j + 1) =~= frags@.take(j as int).push(frag));
                lemma_draw_frags_snoc(
                    mk,
                    frags@.take(j as int),
                    frag,
                    uniforms.time as int,
                    planet_type,
                );
            }
            j = j + 1;
        }
        proof {
            assert(frags@.take(frags@.len() as int) =~= frags@);
            lemma_draw_tris_snoc(
                m0, tv, *light,
                m0.width, m0.height,
                uniforms.time as int, planet_type,
                0, k as int,
            );
        }
        k = k + 1;
    }
}

/// Draw one lit object: run every vertex through the standard transform,
/// assemble triangles, rasterize, shade with the given material, and write
/// each fragment through the depth test.
pub fn render(
    framebuffer: &mut Framebuffer,
    uniforms: &Uniforms,
    vertex_array: &Vec<Vertex>,
    light: &Light,
    planet_type: PlanetType,
)
    requires
        fb_wf(old(framebuffer)@),
    ensures
        fb_wf(final(framebuffer)@),
        final(framebuffer)@ == spec_render(
            old(framebuffer)@,
            *uniforms,
            vertex_array@,
            *light,
            planet_type,
        ),
{
    render_core(framebuffer, uniforms, vertex_array, light, planet_type, false);
}

/// Draw the light-emitting body: the emissive transform variant feeds the
/// same pipeline, and every fragment is shaded with the Sun material.
pub fn render_sun(
    framebuffer: &mut Framebuffer,
    uniforms: &Uniforms,
    vertex_array: &Vec<Vertex>,
    light: &Light,
)
    requires
        fb_wf(old(framebuffer)@),
    ensures
        fb_wf(final(framebuffer)@),
        final(framebuffer)@ == spec_render(
            old(framebuffer)@,
            *uniforms,
            vertex_array@,
            *light,
            PlanetType::Sun,
        ),
{
    render_core(framebuffer, uniforms, vertex_array, light, PlanetType::Sun, true);
}

} // verus!
