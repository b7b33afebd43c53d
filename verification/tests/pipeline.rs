use solar_raster::Uniforms;
use solar_raster::assemble_triangles;
use solar_raster::fixed::FX_ONE;
use solar_raster::fixed::fx_add_e;
use solar_raster::fixed::fx_div_e;
use solar_raster::fixed::fx_mul_e;
use solar_raster::fixed::fx_sqrt_e;
use solar_raster::fixed::fx_sub_e;
use solar_raster::fragment::Color;
use solar_raster::fragment::Fragment;
use solar_raster::framebuffer::Framebuffer;
use solar_raster::light::Light;
use solar_raster::matrix::Mat4;
use solar_raster::matrix::Vec3;
use solar_raster::matrix::mat_identity;
use solar_raster::matrix::vnorm;
use solar_raster::render;
use solar_raster::render_sun;
use solar_raster::shaders::PlanetType;
use solar_raster::shaders::fragment_shader_planet;
use solar_raster::shaders::vertex_shader;
use solar_raster::shaders::vertex_shader_sun;
use solar_raster::triangle::triangle;
use solar_raster::vertex::TransformedVertex;
use solar_raster::vertex::Vertex;

fn v3(x: i64, y: i64, z: i64) -> Vec3 {
    Vec3 { x, y, z }
}

fn tv(x: i64, y: i64, z: i64) -> TransformedVertex {
    TransformedVertex {
        position: v3(x, y, z),
        normal: v3(0, 0, FX_ONE),
        world_position: v3(x, y, 0),
    }
}

fn identity_uniforms(time: i64) -> Uniforms {
    Uniforms {
        model_matrix: mat_identity(),
        view_matrix: mat_identity(),
        projection_matrix: mat_identity(),
        viewport_matrix: mat_identity(),
        time,
    }
}

fn far_light() -> Light {
    Light::new(v3(0, 0, 1000 * FX_ONE))
}

fn frag_at(x: usize, y: usize, intensity: i64, wp: Vec3) -> Fragment {
    Fragment {
        x,
        y,
        depth: FX_ONE,
        normal: v3(0, 0, FX_ONE),
        world_position: wp,
        intensity,
    }
}

// Fixed-point arithmetic.

#[test]
fn fx_ops_exact_values() {
    assert_eq!(fx_add_e(FX_ONE, FX_ONE), 2 * FX_ONE);
    assert_eq!(fx_sub_e(FX_ONE, 3 * FX_ONE), -2 * FX_ONE);
    assert_eq!(fx_mul_e(2 * FX_ONE, 3 * FX_ONE), 6 * FX_ONE);
    assert_eq!(fx_mul_e(-2 * FX_ONE, 3 * FX_ONE), -6 * FX_ONE);
    assert_eq!(fx_div_e(6 * FX_ONE, 2 * FX_ONE), 3 * FX_ONE);
    assert_eq!(fx_div_e(FX_ONE, 0), 0);
    assert_eq!(fx_sqrt_e(4 * FX_ONE), 2 * FX_ONE);
    assert_eq!(fx_sqrt_e(0), 0);
    assert_eq!(fx_sqrt_e(-FX_ONE), 0);
}

#[test]
fn fx_ops_saturate() {
    assert_eq!(fx_add_e(i64::MAX, i64::MAX), i64::MAX);
    assert_eq!(fx_sub_e(i64::MIN, i64::MAX), i64::MIN);
    assert_eq!(fx_mul_e(i64::MAX, i64::MAX), i64::MAX);
}

#[test]
fn vnorm_unit_length() {
    let n = vnorm(v3(3 * FX_ONE, 4 * FX_ONE, 0));
    // A 3-4-5 triangle: the normalized vector is (3/5, 4/5, 0).
    assert_eq!(n.x, 3 * FX_ONE / 5);
    assert_eq!(n.y, 4 * FX_ONE / 5);
    assert_eq!(n.z, 0);
    let z = vnorm(v3(0, 0, 0));
    assert_eq!((z.x, z.y, z.z), (0, 0, 0));
}

// Framebuffer: depth test, bounds, clear.

#[test]
fn point_nearest_wins_either_order() {
    let red = Color::new(255, 0, 0);
    let blue = Color::new(0, 0, 255);

    let mut fb1 = Framebuffer::new(16, 16);
    fb1.point(5, 5, red, 100);
    fb1.point(5, 5, blue, 200);

    let mut fb2 = Framebuffer::new(16, 16);
    fb2.point(5, 5, blue, 200);
    fb2.point(5, 5, red, 100);

    assert_eq!(fb1.color_at(5, 5), Some(red));
    assert_eq!(fb1.depth_at(5, 5), Some(100));
    assert_eq!(fb2.color_at(5, 5), Some(red));
    assert_eq!(fb2.depth_at(5, 5), Some(100));
}

#[test]
fn point_equal_depth_keeps_first() {
    let red = Color::new(255, 0, 0);
    let blue = Color::new(0, 0, 255);
    let mut fb = Framebuffer::new(16, 16);
    fb.point(3, 4, red, 100);
    fb.point(3, 4, blue, 100);
    assert_eq!(fb.color_at(3, 4), Some(red));
}

#[test]
fn point_out_of_bounds_ignored() {
    let red = Color::new(255, 0, 0);
    let mut fb = Framebuffer::new(8, 8);
    let before: Vec<Color> = fb.colors().clone();
    fb.point(-1, 0, red, 0);
    fb.point(0, -1, red, 0);
    fb.point(8, 0, red, 0);
    fb.point(0, 8, red, 0);
    fb.point(i64::MIN, i64::MAX, red, i64::MIN);
    assert_eq!(fb.colors(), &before);
    assert_eq!(fb.color_at(8, 0), None);
    assert_eq!(fb.depth_at(0, 8), None);
}

#[test]
fn clear_is_idempotent() {
    let mut fb = Framebuffer::new(8, 8);
    fb.set_background_color(Color::new(10, 20, 30));
    fb.point(2, 2, Color::new(255, 255, 255), 5);
    fb.clear();
    let colors_once: Vec<Color> = fb.colors().clone();
    let depth_once = fb.depth_at(2, 2);
    fb.clear();
    assert_eq!(fb.colors(), &colors_once);
    assert_eq!(fb.depth_at(2, 2), depth_once);
    assert_eq!(fb.color_at(2, 2), Some(Color::new(10, 20, 30)));
    assert_eq!(fb.depth_at(2, 2), Some(i64::MAX));
}

// Rasterizer.

#[test]
fn right_triangle_coverage() {
    let d0 = 3 * FX_ONE;
    let d1 = 5 * FX_ONE;
    let d2 = 7 * FX_ONE;
    let a = tv(0, 0, d0);
    let b = tv(4 * FX_ONE, 0, d1);
    let c = tv(0, 4 * FX_ONE, d2);
    let light = far_light();
    let frags = triangle(&a, &b, &c, &light, 100, 100);

    // Exactly the 15 integer pixels with x >= 0, y >= 0, x + y <= 4.
    assert_eq!(frags.len(), 15);
    for x in 0..5usize {
        for y in 0..5usize {
            let expected = x + y <= 4;
            let found = frags.iter().any(|f| f.x == x && f.y == y);
            assert_eq!(found, expected, "pixel ({}, {})", x, y);
        }
    }
    // The first fragment is pixel (0, 0) with the first vertex's depth.
    assert_eq!(frags[0].x, 0);
    assert_eq!(frags[0].y, 0);
    assert_eq!(frags[0].depth, d0);
}

#[test]
fn degenerate_triangle_no_fragments() {
    let a = tv(2 * FX_ONE, 2 * FX_ONE, FX_ONE);
    let b = tv(2 * FX_ONE, 2 * FX_ONE, FX_ONE);
    let c = tv(9 * FX_ONE, 5 * FX_ONE, FX_ONE);
    let light = far_light();
    let frags = triangle(&a, &b, &c, &light, 100, 100);
    assert_eq!(frags.len(), 0);
}

#[test]
fn triangle_clipped_to_screen() {
    // A triangle reaching far off-screen emits only in-bounds pixels.
    let a = tv(-10 * FX_ONE, -10 * FX_ONE, FX_ONE);
    let b = tv(20 * FX_ONE, 0, FX_ONE);
    let c = tv(0, 20 * FX_ONE, FX_ONE);
    let light = far_light();
    let frags = triangle(&a, &b, &c, &light, 8, 8);
    assert!(!frags.is_empty());
    for f in frags.iter() {
        assert!(f.x < 8 && f.y < 8);
    }
}

#[test]
fn fragment_intensity_facing_light() {
    // A flat triangle with +z normals lit from +z: full intensity.
    let a = tv(0, 0, FX_ONE);
    let b = tv(4 * FX_ONE, 0, FX_ONE);
    let c = tv(0, 4 * FX_ONE, FX_ONE);
    let light = far_light();
    let frags = triangle(&a, &b, &c, &light, 100, 100);
    let f = &frags[0];
    assert!(f.intensity > FX_ONE * 9 / 10, "intensity {}", f.intensity);
    assert!(f.intensity <= FX_ONE);
}

// Fragment shader.

#[test]
fn shading_total_over_all_variants_and_boundaries() {
    let u = identity_uniforms(7 * FX_ONE);
    let variants = [
        PlanetType::Rocky,
        PlanetType::GasGiant,
        PlanetType::SciFi,
        PlanetType::Ice,
        PlanetType::Volcanic,
        PlanetType::Sun,
        PlanetType::Ring,
        PlanetType::Moon,
    ];
    let intensities = [0, 1, FX_ONE / 2, FX_ONE - 1, FX_ONE, -FX_ONE, i64::MIN, i64::MAX];
    let positions = [
        v3(0, 0, 0),
        v3(FX_ONE, -3 * FX_ONE, 2 * FX_ONE),
        v3(i64::MAX, i64::MIN, 123456789),
    ];
    for &p in variants.iter() {
        for &i in intensities.iter() {
            for &wp in positions.iter() {
                let f = frag_at(1, 1, i, wp);
                let _ = fragment_shader_planet(&f, &u, p);
            }
        }
    }
}

#[test]
fn sun_ignores_intensity() {
    let u = identity_uniforms(3 * FX_ONE);
    let wp = v3(2 * FX_ONE, FX_ONE, -FX_ONE);
    let f_dark = frag_at(1, 1, 0, wp);
    let f_lit = frag_at(1, 1, FX_ONE, wp);
    assert_eq!(
        fragment_shader_planet(&f_dark, &u, PlanetType::Sun),
        fragment_shader_planet(&f_lit, &u, PlanetType::Sun)
    );
}

#[test]
fn lit_variant_depends_on_intensity() {
    let u = identity_uniforms(0);
    let wp = v3(2 * FX_ONE, FX_ONE, -FX_ONE);
    let dark = fragment_shader_planet(&frag_at(1, 1, 0, wp), &u, PlanetType::Rocky);
    let lit = fragment_shader_planet(&frag_at(1, 1, FX_ONE, wp), &u, PlanetType::Rocky);
    assert_ne!(dark, lit);
    // The ambient floor keeps the unlit side from pure black.
    assert!(dark.r > 0);
}

#[test]
fn moon_and_rocky_differ_only_in_palette() {
    let u = identity_uniforms(0);
    let wp = v3(FX_ONE / 2, 0, FX_ONE / 2);
    let rocky = fragment_shader_planet(&frag_at(0, 0, FX_ONE, wp), &u, PlanetType::Rocky);
    let moon = fragment_shader_planet(&frag_at(0, 0, FX_ONE, wp), &u, PlanetType::Moon);
    assert_ne!(rocky, moon);
}

// Transform stage.

#[test]
fn vertex_shader_identity_transform() {
    let u = identity_uniforms(0);
    let v = Vertex {
        position: v3(FX_ONE, 2 * FX_ONE, 3 * FX_ONE),
        normal: v3(0, FX_ONE, 0),
    };
    let t = vertex_shader(&v, &u);
    assert_eq!(t.position, v3(FX_ONE, 2 * FX_ONE, 3 * FX_ONE));
    assert_eq!(t.world_position, v3(FX_ONE, 2 * FX_ONE, 3 * FX_ONE));
    assert_eq!(t.normal, v3(0, FX_ONE, 0));
}

#[test]
fn vertex_shader_model_translation() {
    let mut model = mat_identity();
    model.m03 = 5 * FX_ONE;
    let u = Uniforms {
        model_matrix: model,
        view_matrix: mat_identity(),
        projection_matrix: mat_identity(),
        viewport_matrix: mat_identity(),
        time: 0,
    };
    let v = Vertex { position: v3(FX_ONE, 0, 0), normal: v3(FX_ONE, 0, 0) };
    let t = vertex_shader(&v, &u);
    // The world position is translated; the normal is not.
    assert_eq!(t.world_position, v3(6 * FX_ONE, 0, 0));
    assert_eq!(t.normal, v3(FX_ONE, 0, 0));
    assert_eq!(t.position.x, 6 * FX_ONE);
}

#[test]
fn sun_vertex_shader_matches_standard() {
    let u = identity_uniforms(9 * FX_ONE);
    let v = Vertex {
        position: v3(-2 * FX_ONE, FX_ONE, 4 * FX_ONE),
        normal: v3(0, 0, -FX_ONE),
    };
    assert_eq!(vertex_shader_sun(&v, &u), vertex_shader(&v, &u));
}

// Primitive assembly.

#[test]
fn assemble_groups_of_three_drop_remainder() {
    let vs: Vec<TransformedVertex> = (0..7).map(|i| tv(i * FX_ONE, 0, 0)).collect();
    let tris = assemble_triangles(&vs);
    assert_eq!(tris.len(), 2);
    assert_eq!(tris[0].v0, vs[0]);
    assert_eq!(tris[0].v1, vs[1]);
    assert_eq!(tris[0].v2, vs[2]);
    assert_eq!(tris[1].v0, vs[3]);
    assert_eq!(tris[1].v1, vs[4]);
    assert_eq!(tris[1].v2, vs[5]);
}

// Full pipeline.

fn screen_triangle(z: i64) -> Vec<Vertex> {
    // With identity matrices the model positions are already screen pixels.
    vec![
        Vertex { position: v3(0, 0, z), normal: v3(0, 0, FX_ONE) },
        Vertex { position: v3(4 * FX_ONE, 0, z), normal: v3(0, 0, FX_ONE) },
        Vertex { position: v3(0, 4 * FX_ONE, z), normal: v3(0, 0, FX_ONE) },
    ]
}

#[test]
fn render_writes_covered_pixels() {
    let mut fb = Framebuffer::new(10, 10);
    fb.clear();
    let u = identity_uniforms(0);
    let light = far_light();
    let verts = screen_triangle(FX_ONE);
    render(&mut fb, &u, &verts, &light, PlanetType::Rocky);
    assert_eq!(fb.depth_at(1, 1), Some(FX_ONE));
    assert_ne!(fb.color_at(1, 1), Some(Color::new(0, 0, 0)));
    // A pixel outside the triangle keeps the background.
    assert_eq!(fb.color_at(9, 9), Some(Color::new(0, 0, 0)));
    assert_eq!(fb.depth_at(9, 9), Some(i64::MAX));
}

#[test]
fn render_drops_trailing_partial_group() {
    let u = identity_uniforms(0);
    let light = far_light();
    let mut verts = screen_triangle(FX_ONE);
    let mut fb3 = Framebuffer::new(10, 10);
    render(&mut fb3, &u, &verts, &light, PlanetType::Ice);
    verts.push(Vertex { position: v3(9 * FX_ONE, 9 * FX_ONE, FX_ONE), normal: v3(0, 0, FX_ONE) });
    let mut fb4 = Framebuffer::new(10, 10);
    render(&mut fb4, &u, &verts, &light, PlanetType::Ice);
    assert_eq!(fb3.colors(), fb4.colors());
}

#[test]
fn draw_order_does_not_decide_occlusion() {
    let u = identity_uniforms(0);
    let light = far_light();
    let near = screen_triangle(FX_ONE);
    let far = screen_triangle(3 * FX_ONE);

    let mut fb_nf = Framebuffer::new(10, 10);
    render(&mut fb_nf, &u, &near, &light, PlanetType::Ice);
    render(&mut fb_nf, &u, &far, &light, PlanetType::Volcanic);

    let mut fb_fn = Framebuffer::new(10, 10);
    render(&mut fb_fn, &u, &far, &light, PlanetType::Volcanic);
    render(&mut fb_fn, &u, &near, &light, PlanetType::Ice);

    assert_eq!(fb_nf.colors(), fb_fn.colors());
    assert_eq!(fb_nf.depth_at(1, 1), Some(FX_ONE));
}

#[test]
fn render_empty_mesh_changes_nothing() {
    let u = identity_uniforms(0);
    let light = far_light();
    let mut fb = Framebuffer::new(6, 6);
    fb.set_background_color(Color::new(1, 2, 3));
    fb.clear();
    let before: Vec<Color> = fb.colors().clone();
    render(&mut fb, &u, &Vec::new(), &light, PlanetType::GasGiant);
    assert_eq!(fb.colors(), &before);
}

#[test]
fn render_sun_uses_emissive_material() {
    let u = identity_uniforms(0);
    let light = far_light();
    let verts = screen_triangle(FX_ONE);
    let mut fb = Framebuffer::new(10, 10);
    render_sun(&mut fb, &u, &verts, &light);
    // The sun's red channel is always full.
    assert_eq!(fb.color_at(1, 1).unwrap().r, 255);
}
