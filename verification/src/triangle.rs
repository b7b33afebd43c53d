//! The rasterizer: scan-converts one triangle of transformed vertices into
//! the row-major sequence of fragments covering its screen-space area,
//! interpolating depth, normal and world position by barycentric weights and
//! computing a light intensity per fragment.

use vstd::prelude::*;

use crate::fixed::FX_ONE;
use crate::fixed::abs_int;
use crate::fixed::clamp_int;
use crate::fixed::sat64;
use crate::fixed::sat_narrow;
use crate::fixed::tdiv;
use crate::fixed::tdiv_e;
use crate::fragment::Fragment;
use crate::light::Light;
use crate::matrix::Vec3;
use crate::matrix::spec_vdot;
use crate::matrix::spec_vnorm;
use crate::matrix::spec_vsub;
use crate::matrix::vdot;
use crate::matrix::vnorm;
use crate::matrix::vsub;
use crate::shaders::clamp01_fx;
use crate::vertex::TransformedVertex;

verus! {

/// The integer pixel column of a transformed vertex: its fixed-point screen
/// x truncated to a whole pixel.
pub open spec fn spec_px_x(v: TransformedVertex) -> int {
    tdiv(v.position.x as int, FX_ONE as int)
}

/// The integer pixel row of a transformed vertex.
pub open spec fn spec_px_y(v: TransformedVertex) -> int {
    tdiv(v.position.y as int, FX_ONE as int)
}

/// Twice the signed area of the triangle (a, b, c): the edge function of
/// 2D screen-space points.
pub open spec fn spec_orient(ax: int, ay: int, bx: int, by: int, cx: int, cy: int) -> int {
    (bx - ax) * (cy - ay) - (by - ay) * (cx - ax)
}

/// Twice the signed area of the triangle in pixel coordinates; zero exactly
/// for degenerate (zero-area) triangles.
pub open spec fn spec_denom(a: TransformedVertex, b: TransformedVertex, c: TransformedVertex) -> int {
    spec_orient(spec_px_x(a), spec_px_y(a), spec_px_x(b), spec_px_y(b), spec_px_x(c), spec_px_y(c))
}

pub open spec fn spec_w0(a: TransformedVertex, b: TransformedVertex, c: TransformedVertex, x: int, y: int) -> int {
    spec_orient(spec_px_x(b), spec_px_y(b), spec_px_x(c), spec_px_y(c), x, y)
}

pub open spec fn spec_w1(a: TransformedVertex, b: TransformedVertex, c: TransformedVertex, x: int, y: int) -> int {
    spec_orient(spec_px_x(c), spec_px_y(c), spec_px_x(a), spec_px_y(a), x, y)
}

pub open spec fn spec_w2(a: TransformedVertex, b: TransformedVertex, c: TransformedVertex, x: int, y: int) -> int {
    spec_orient(spec_px_x(a), spec_px_y(a), spec_px_x(b), spec_px_y(b), x, y)
}

/// The inside test: all three barycentric weights lie in [0, 1], which for
/// the unnormalized edge weights means they all carry the sign of the
/// triangle's area.  A degenerate triangle has no inside pixels.
pub open spec fn spec_inside(a: TransformedVertex, b: TransformedVertex, c: TransformedVertex, x: int, y: int) -> bool {
    let d = spec_denom(a, b, c);
    if d > 0 {
        spec_w0(a, b, c, x, y) >= 0 && spec_w1(a, b, c, x, y) >= 0 && spec_w2(a, b, c, x, y) >= 0
    } else if d < 0 {
        spec_w0(a, b, c, x, y) <= 0 && spec_w1(a, b, c, x, y) <= 0 && spec_w2(a, b, c, x, y) <= 0
    } else {
        false
    }
}

/// An edge weight normalized into fixed point: in [0, FX_ONE] for inside
/// pixels, exactly FX_ONE at the weight's own vertex.
pub open spec fn spec_norm_weight(w: int, d: int) -> int {
    if d == 0 {
        0
    } else {
        clamp_int(tdiv(w * FX_ONE, d), 0, FX_ONE as int)
    }
}

/// Barycentric interpolation of one fixed-point attribute from the three
/// vertex values, with the normalized weights.
pub open spec fn spec_interp(w0: int, w1: int, w2: int, a0: int, a1: int, a2: int) -> int {
    sat64(tdiv(w0 * a0 + w1 * a1 + w2 * a2, FX_ONE as int))
}

/// The fragment emitted for pixel (x, y): interpolated depth, normal and
/// world position, and the light intensity there — the clamped dot product
/// of the normalized light direction with the normalized normal.
pub open spec fn spec_fragment(
    a: TransformedVertex,
    b: TransformedVertex,
    c: TransformedVertex,
    light: Light,
    x: int,
    y: int,
) -> Fragment {
    let d = spec_denom(a, b, c);
    let wf0 = spec_norm_weight(spec_w0(a, b, c, x, y), d);
    let wf1 = spec_norm_weight(spec_w1(a, b, c, x, y), d);
    let wf2 = spec_norm_weight(spec_w2(a, b, c, x, y), d);
    let depth = spec_interp(wf0, wf1, wf2, a.position.z as int, b.position.z as int, c.position.z as int);
    let normal = Vec3 {
        x: spec_interp(wf0, wf1, wf2, a.normal.x as int, b.normal.x as int, c.normal.x as int) as i64,
        y: spec_interp(wf0, wf1, wf2, a.normal.y as int, b.normal.y as int, c.normal.y as int) as i64,
        z: spec_interp(wf0, wf1, wf2, a.normal.z as int, b.normal.z as int, c.normal.z as int) as i64,
    };
    let world = Vec3 {
        x: spec_interp(wf0, wf1, wf2, a.world_position.x as int, b.world_position.x as int, c.world_position.x as int) as i64,
        y: spec_interp(wf0, wf1, wf2, a.world_position.y as int, b.world_position.y as int, c.world_position.y as int) as i64,
        z: spec_interp(wf0, wf1, wf2, a.world_position.z as int, b.world_position.z as int, c.world_position.z as int) as i64,
    };
    let intensity = clamp01_fx(spec_vdot(spec_vnorm(spec_vsub(light.position, world)), spec_vnorm(normal)));
    Fragment {
        x: x as usize,
        y: y as usize,
        depth: depth as i64,
        normal,
        world_position: world,
        intensity: intensity as i64,
    }
}

/// The fragments one pixel contributes: one if it passes the inside test,
/// none otherwise.
pub open spec fn spec_cell(
    a: TransformedVertex,
    b: TransformedVertex,
    c: TransformedVertex,
    light: Light,
    x: int,
    y: int,
) -> Seq<Fragment> {
    if spec_inside(a, b, c, x, y) {
        seq![spec_fragment(a, b, c, light, x, y)]
    } else {
        Seq::empty()
    }
}

/// The fragments of one pixel row, columns [x, x_end).
pub open spec fn spec_row_frags(
    a: TransformedVertex,
    b: TransformedVertex,
    c: TransformedVertex,
    light: Light,
    y: int,
    x: int,
    x_end: int,
) -> Seq<Fragment>
    decreases x_end - x,
{
    if x >= x_end {
        Seq::empty()
    } else {
        spec_cell(a, b, c, light, x, y) + spec_row_frags(a, b, c, light, y, x + 1, x_end)
    }
}

/// The fragments of rows [y, y_end), each covering columns [x_lo, x_hi), in
/// row-major order.
pub open spec fn spec_rows_frags(
    a: TransformedVertex,
    b: TransformedVertex,
    c: TransformedVertex,
    light: Light,
    y: int,
    y_end: int,
    x_lo: int,
    x_hi: int,
) -> Seq<Fragment>
    decreases y_end - y,
{
    if y >= y_end {
        Seq::empty()
    } else {
        spec_row_frags(a, b, c, light, y, x_lo, x_hi) + spec_rows_frags(a, b, c, light, y + 1, y_end, x_lo, x_hi)
    }
}

pub open spec fn min3(a: int, b: int, c: int) -> int {
    if a <= b && a <= c {
        a
    } else if b <= c {
        b
    } else {
        c
    }
}

pub open spec fn max3(a: int, b: int, c: int) -> int {
    if a >= b && a >= c {
        a
    } else if b >= c {
        b
    } else {
        c
    }
}

/// The screen-clamped bounding box: column range of the rasterized area.
pub open spec fn spec_x_lo(a: TransformedVertex, b: TransformedVertex, c: TransformedVertex, width: int) -> int {
    clamp_int(min3(spec_px_x(a), spec_px_x(b), spec_px_x(c)), 0, width)
}

pub open spec fn spec_x_hi(a: TransformedVertex, b: TransformedVertex, c: TransformedVertex, width: int) -> int {
    clamp_int(max3(spec_px_x(a), spec_px_x(b), spec_px_x(c)) + 1, 0, width)
}

pub open spec fn spec_y_lo(a: TransformedVertex, b: TransformedVertex, c: TransformedVertex, height: int) -> int {
    clamp_int(min3(spec_px_y(a), spec_px_y(b), spec_px_y(c)), 0, height)
}

pub open spec fn spec_y_hi(a: TransformedVertex, b: TransformedVertex, c: TransformedVertex, height: int) -> int {
    clamp_int(max3(spec_px_y(a), spec_px_y(b), spec_px_y(c)) + 1, 0, height)
}

/// Everything `triangle` returns: the fragments of all pixels of the
/// screen-clamped bounding box that pass the inside test, in row-major
/// order.
pub open spec fn spec_triangle_frags(
    a: TransformedVertex,
    b: TransformedVertex,
    c: TransformedVertex,
    light: Light,
    width: int,
    height: int,
) -> Seq<Fragment> {
    spec_rows_frags(
        a,
        b,
        c,
        light,
        spec_y_lo(a, b, c, height),
        spec_y_hi(a, b, c, height),
        spec_x_lo(a, b, c, width),
        spec_x_hi(a, b, c, width),
    )
}

/// Appending one more column to a row of fragments.
proof fn lemma_row_snoc(
    a: TransformedVertex,
    b: TransformedVertex,
    c: TransformedVertex,
    light: Light,
    y: int,
    x_lo: int,
    x: int,
)
    requires
        x_lo <= x,
    ensures
        spec_row_frags(a, b, c, light, y, x_lo, x + 1) == spec_row_frags(a, b, c, light, y, x_lo, x)
            + spec_cell(a, b, c, light, x, y),
    decreases x - x_lo,
{
    if x_lo == x {
        assert(spec_row_frags(a, b, c, light, y, x + 1, x + 1) == Seq::<Fragment>::empty());
        assert(spec_row_frags(a, b, c, light, y, x_lo, x) == Seq::<Fragment>::empty());
        assert(spec_row_frags(a, b, c, light, y, x_lo, x + 1) =~= spec_row_frags(
            a, b, c, light, y, x_lo, x,
        ) + spec_cell(a, b, c, light, x, y));
    } else {
        lemma_row_snoc(a, b, c, light, y, x_lo + 1, x);
        assert(spec_row_frags(a, b, c, light, y, x_lo, x + 1) =~= spec_row_frags(
            a, b, c, light, y, x_lo, x,
        ) + spec_cell(a, b, c, light, x, y));
    }
}

/// Appending one more row to the stack of rows.
proof fn lemma_rows_snoc(
    a: TransformedVertex,
    b: TransformedVertex,
    c: TransformedVertex,
    light: Light,
    y_lo: int,
    y: int,
    x_lo: int,
    x_hi: int,
)
    requires
        y_lo <= y,
    ensures
        spec_rows_frags(a, b, c, light, y_lo, y + 1, x_lo, x_hi) == spec_rows_frags(
            a, b, c, light, y_lo, y, x_lo, x_hi,
        ) + spec_row_frags(a, b, c, light, y, x_lo, x_hi),
    decreases y - y_lo,
{
    if y_lo == y {
        assert(spec_rows_frags(a, b, c, light, y + 1, y + 1, x_lo, x_hi) == Seq::<Fragment>::empty());
        assert(spec_rows_frags(a, b, c, light, y_lo, y, x_lo, x_hi) == Seq::<Fragment>::empty());
        assert(spec_rows_frags(a, b, c, light, y_lo, y + 1, x_lo, x_hi) =~= spec_rows_frags(
            a, b, c, light, y_lo, y, x_lo, x_hi,
        ) + spec_row_frags(a, b, c, light, y, x_lo, x_hi));
    } else {
        lemma_rows_snoc(a, b, c, light, y_lo + 1, y, x_lo, x_hi);
        assert(spec_rows_frags(a, b, c, light, y_lo, y + 1, x_lo, x_hi) =~= spec_rows_frags(
            a, b, c, light, y_lo, y, x_lo, x_hi,
        ) + spec_row_frags(a, b, c, light, y, x_lo, x_hi));
    }
}

/// The pixel column of a vertex, with its machine bound.
fn px_x_of(v: &TransformedVertex) -> (r: i64)
    ensures
        r as int == spec_px_x(*v),
        -0x8000_0000_0000 <= r <= 0x8000_0000_0000,
{
    let r = tdiv_e(v.position.x, FX_ONE);
    proof {
        lemma_px_bound(v.position.x as int);
    }
    r
}

fn px_y_of(v: &TransformedVertex) -> (r: i64)
    ensures
        r as int == spec_px_y(*v),
        -0x8000_0000_0000 <= r <= 0x8000_0000_0000,
{
    let r = tdiv_e(v.position.y, FX_ONE);
    proof {
        lemma_px_bound(v.position.y as int);
    }
    r
}

/// A fixed-point coordinate truncated to pixels fits well inside 48 bits.
proof fn lemma_px_bound(c: int)
    requires
        -0x8000_0000_0000_0000 <= c <= 0x7fff_ffff_ffff_ffff,
    ensures
        -0x8000_0000_0000 <= tdiv(c, FX_ONE as int) <= 0x8000_0000_0000,
{
    let q = abs_int(c) / (FX_ONE as int);
    assert(q * 65536 <= abs_int(c) && q >= 0) by (nonlinear_arith)
        requires
            q == abs_int(c) / 65536,
            abs_int(c) >= 0;
    assert(q <= 0x8000_0000_0000) by (nonlinear_arith)
        requires
            q * 65536 <= 0x8000_0000_0000_0000,
            q >= 0;
}

/// The edge function on 128-bit intermediates.
fn orient_e(ax: i64, ay: i64, bx: i64, by: i64, cx: i64, cy: i64) -> (r: i128)
    requires
        -0x1_0000_0000_0000 <= ax <= 0x1_0000_0000_0000,
        -0x1_0000_0000_0000 <= ay <= 0x1_0000_0000_0000,
        -0x1_0000_0000_0000 <= bx <= 0x1_0000_0000_0000,
        -0x1_0000_0000_0000 <= by <= 0x1_0000_0000_0000,
        -0x1_0000_0000_0000 <= cx <= 0x1_0000_0000_0000,
        -0x1_0000_0000_0000 <= cy <= 0x1_0000_0000_0000,
    ensures
        r as int == spec_orient(ax as int, ay as int, bx as int, by as int, cx as int, cy as int),
        -0x10_0000_0000_0000_0000_0000_0000 <= r <= 0x10_0000_0000_0000_0000_0000_0000,
{
    let dx0: i128 = bx as i128 - ax as i128;
    let dy0: i128 = cy as i128 - ay as i128;
    let dx1: i128 = by as i128 - ay as i128;
    let dy1: i128 = cx as i128 - ax as i128;
    proof {
        lemma_edge_product_bound(dx0 as int, dy0 as int);
        lemma_edge_product_bound(dx1 as int, dy1 as int);
    }
    let e0: i128 = dx0 * dy0;
    let e1: i128 = dx1 * dy1;
    e0 - e1
}

/// The product of two 49-bit differences fits well inside 100 bits.
proof fn lemma_edge_product_bound(p: int, q: int)
    requires
        -0x2_0000_0000_0000 <= p <= 0x2_0000_0000_0000,
        -0x2_0000_0000_0000 <= q <= 0x2_0000_0000_0000,
    ensures
        -0x8_0000_0000_0000_0000_0000_0000 <= p * q <= 0x8_0000_0000_0000_0000_0000_0000,
{
    assert(-0x8_0000_0000_0000_0000_0000_0000 <= p * q <= 0x8_0000_0000_0000_0000_0000_0000)
        by (nonlinear_arith)
        requires
            -0x2_0000_0000_0000 <= p <= 0x2_0000_0000_0000,
            -0x2_0000_0000_0000 <= q <= 0x2_0000_0000_0000;
}

/// One edge weight normalized into [0, FX_ONE].
fn norm_weight(w: i128, d: i128) -> (r: i64)
    requires
        d != 0,
        -0x10_0000_0000_0000_0000_0000_0000 <= w <= 0x10_0000_0000_0000_0000_0000_0000,
        -0x10_0000_0000_0000_0000_0000_0000 <= d <= 0x10_0000_0000_0000_0000_0000_0000,
    ensures
        r as int == spec_norm_weight(w as int, d as int),
        0 <= r <= FX_ONE,
{
    proof {
        assert((w as int) * 65536 <= 0x100_0000_0000_0000_0000_0000_0000_0000
            && (w as int) * 65536 >= -0x100_0000_0000_0000_0000_0000_0000_0000) by (nonlinear_arith)
            requires
                -0x10_0000_0000_0000_0000_0000_0000 <= w as int <= 0x10_0000_0000_0000_0000_0000_0000;
    }
    let m: i128 = w * (FX_ONE as i128);
    let q: i128 = crate::fixed::tdiv128(m, d);
    if q < 0 {
        0
    } else if q > FX_ONE as i128 {
        FX_ONE
    } else {
        q as i64
    }
}

/// Barycentric interpolation of one attribute.
fn interp3(w0: i64, w1: i64, w2: i64, a0: i64, a1: i64, a2: i64) -> (r: i64)
    requires
        0 <= w0 <= FX_ONE,
        0 <= w1 <= FX_ONE,
        0 <= w2 <= FX_ONE,
    ensures
        r as int == spec_interp(w0 as int, w1 as int, w2 as int, a0 as int, a1 as int, a2 as int),
{
    proof {
        lemma_weighted_term_bound(w0 as int, a0 as int);
        lemma_weighted_term_bound(w1 as int, a1 as int);
        lemma_weighted_term_bound(w2 as int, a2 as int);
    }
    let p: i128 = (w0 as i128) * (a0 as i128) + (w1 as i128) * (a1 as i128) + (w2 as i128) * (a2 as i128);
    let q: i128 = crate::fixed::tdiv128(p, FX_ONE as i128);
    sat_narrow(q)
}

/// A normalized weight times an `i64` attribute fits well inside 80 bits.
proof fn lemma_weighted_term_bound(w: int, a: int)
    requires
        0 <= w <= 65536,
        -0x8000_0000_0000_0000 <= a <= 0x7fff_ffff_ffff_ffff,
    ensures
        -0x1_0000_0000_0000_0000_0000 <= w * a <= 0x1_0000_0000_0000_0000_0000,
{
    assert(-0x1_0000_0000_0000_0000_0000 <= w * a <= 0x1_0000_0000_0000_0000_0000)
        by (nonlinear_arith)
        requires
            0 <= w <= 65536,
            -0x8000_0000_0000_0000 <= a <= 0x7fff_ffff_ffff_ffff;
}

/// Rasterize one triangle: emit, in row-major order, one fragment for every
/// pixel of the screen-clamped bounding box that passes the inside test.  A
/// degenerate triangle yields no fragments.
pub fn triangle(
    a: &TransformedVertex,
    b: &TransformedVertex,
    c: &TransformedVertex,
    light: &Light,
    width: usize,
    height: usize,
) -> (r: Vec<Fragment>)
    ensures
        r@ == spec_triangle_frags(*a, *b, *c, *light, width as int, height as int),
        forall|i: int| 0 <= i < r@.len() ==> (#[trigger] r@[i]).x < width && r@[i].y < height,
{
    let ax = px_x_of(a);
    let ay = px_y_of(a);
    let bx = px_x_of(b);
    let by = px_y_of(b);
    let cx = px_x_of(c);
    let cy = px_y_of(c);
    let d: i128 = orient_e(ax, ay, bx, by, cx, cy);

    let xmin: i64 = if ax <= bx && ax <= cx { ax } else if bx <= cx { bx } else { cx };
    let xmax: i64 = if ax >= bx && ax >= cx { ax } else if bx >= cx { bx } else { cx };
    let ymin: i64 = if ay <= by && ay <= cy { ay } else if by <= cy { by } else { cy };
    let ymax: i64 = if ay >= by && ay >= cy { ay } else if by >= cy { by } else { cy };

    let x_lo: usize = clamp_to(xmin, width);
    let x_hi: usize = clamp_to(xmax + 1, width);
    let y_lo: usize = clamp_to(ymin, height);
    let y_hi: usize = clamp_to(ymax + 1, height);

    let mut out: Vec<Fragment> = Vec::new();
    let mut y: usize = y_lo;
    while y < y_hi
        invariant
            y_lo <= y <= y_hi,
            x_lo as int == spec_x_lo(*a, *b, *c, width as int),
            x_hi as int == spec_x_hi(*a, *b, *c, width as int),
            y_lo as int == spec_y_lo(*a, *b, *c, height as int),
            y_hi as int == spec_y_hi(*a, *b, *c, height as int),
            x_hi <= 0x8000_0000_0001,
            y_hi <= 0x8000_0000_0001,
            ax as int == spec_px_x(*a) && -0x8000_0000_0000 <= ax <= 0x8000_0000_0000,
            ay as int == spec_px_y(*a) && -0x8000_0000_0000 <= ay <= 0x8000_0000_0000,
            bx as int == spec_px_x(*b) && -0x8000_0000_0000 <= bx <= 0x8000_0000_0000,
            by as int == spec_px_y(*b) && -0x8000_0000_0000 <= by <= 0x8000_0000_0000,
            cx as int == spec_px_x(*c) && -0x8000_0000_0000 <= cx <= 0x8000_0000_0000,
            cy as int == spec_px_y(*c) && -0x8000_0000_0000 <= cy <= 0x8000_0000_0000,
            d as int == spec_denom(*a, *b, *c),
            -0x10_0000_0000_0000_0000_0000_0000 <= d <= 0x10_0000_0000_0000_0000_0000_0000,
            x_hi <= width,
            y_hi <= height,
            forall|i: int| 0 <= i < out@.len() ==> (#[trigger] out@[i]).x < width && out@[i].y < height,
            out@ == spec_rows_frags(
                *a, *b, *c, *light,
                y_lo as int, y as int,
                x_lo as int, x_hi as int,
            ),
        decreases y_hi - y,
    {
        let mut x: usize = x_lo;
        while x < x_hi
            invariant
                y_lo <= y < y_hi,
                x_lo <= x <= x_hi,
                x_hi <= 0x8000_0000_0001,
                y_hi <= 0x8000_0000_0001,
                ax as int == spec_px_x(*a) && -0x8000_0000_0000 <= ax <= 0x8000_0000_0000,
                ay as int == spec_px_y(*a) && -0x8000_0000_0000 <= ay <= 0x8000_0000_0000,
                bx as int == spec_px_x(*b) && -0x8000_0000_0000 <= bx <= 0x8000_0000_0000,
                by as int == spec_px_y(*b) && -0x8000_0000_0000 <= by <= 0x8000_0000_0000,
                cx as int == spec_px_x(*c) && -0x8000_0000_0000 <= cx <= 0x8000_0000_0000,
                cy as int == spec_px_y(*c) && -0x8000_0000_0000 <= cy <= 0x8000_0000_0000,
                d as int == spec_denom(*a, *b, *c),
                -0x10_0000_0000_0000_0000_0000_0000 <= d <= 0x10_0000_0000_0000_0000_0000_0000,
                x_hi <= width,
                y_hi <= height,
                forall|i: int| 0 <= i < out@.len() ==> (#[trigger] out@[i]).x < width && out@[i].y < height,
                out@ == spec_rows_frags(
                    *a, *b, *c, *light,
                    y_lo as int, y as int,
                    x_lo as int, x_hi as int,
                ) + spec_row_frags(*a, *b, *c, *light, y as int, x_lo as int, x as int),
            decreases x_hi - x,
        {
            let xi: i64 = x as i64;
            let yi: i64 = y as i64;
            let w0: i128 = orient_e(bx, by, cx, cy, xi, yi);
            let w1: i128 = orient_e(cx, cy, ax, ay, xi, yi);
            let w2: i128 = orient_e(ax, ay, bx, by, xi, yi);
            let inside: bool = if d > 0 {
                w0 >= 0 && w1 >= 0 && w2 >= 0
            } else if d < 0 {
                w0 <= 0 && w1 <= 0 && w2 <= 0
            } else {
                false
            };
            if inside {
                let wf0: i64 = norm_weight(w0, d);
                let wf1: i64 = norm_weight(w1, d);
                let wf2: i64 = norm_weight(w2, d);
                let depth: i64 = interp3(wf0, wf1, wf2, a.position.z, b.position.z, c.position.z);
                let normal = Vec3 {
                    x: interp3(wf0, wf1, wf2, a.normal.x, b.normal.x, c.normal.x),
                    y: interp3(wf0, wf1, wf2, a.normal.y, b.normal.y, c.normal.y),
                    z: interp3(wf0, wf1, wf2, a.normal.z, b.normal.z, c.normal.z),
                };
                let world = Vec3 {
                    x: interp3(wf0, wf1, wf2, a.world_position.x, b.world_position.x, c.world_position.x),
                    y: interp3(wf0, wf1, wf2, a.world_position.y, b.world_position.y, c.world_position.y),
                    z: interp3(wf0, wf1, wf2, a.world_position.z, b.world_position.z, c.world_position.z),
                };
                let ldir = vnorm(vsub(light.position, world));
                let nn = vnorm(normal);
                let dp = vdot(ldir, nn);
                let intensity: i64 = if dp < 0 {
                    0
                } else if dp > FX_ONE {
                    FX_ONE
                } else {
                    dp
                };
                let frag = Fragment { x, y, depth, normal, world_position: world, intensity };
                proof {
                    assert(frag == spec_fragment(*a, *b, *c, *light, x as int, y as int));
                }
                out.push(frag);
            }
            proof {
                lemma_row_snoc(*a, *b, *c, *light, y as int, x_lo as int, x as int);
            }
            x = x + 1;
        }
        proof {
            lemma_rows_snoc(*a, *b, *c, *light, y_lo as int, y as int, x_lo as int, x_hi as int);
        }
        y = y + 1;
    }
    out
}

/// Whether a fragment sequence holds a fragment for pixel (x, y).
pub open spec fn covers(frags: Seq<Fragment>, x: int, y: int) -> bool {
    exists|i: int| 0 <= i < frags.len() && frags[i].x as int == x && frags[i].y as int == y
}

/// A row of fragments covers exactly the inside pixels of its column range.
proof fn lemma_row_covers(
    a: TransformedVertex,
    b: TransformedVertex,
    c: TransformedVertex,
    light: Light,
    y: int,
    x0: int,
    x1: int,
    qx: int,
    qy: int,
)
    requires
        0 <= y <= usize::MAX,
        0 <= x0,
        x1 <= usize::MAX,
    ensures
        covers(spec_row_frags(a, b, c, light, y, x0, x1), qx, qy) <==> (qy == y && x0 <= qx < x1
            && spec_inside(a, b, c, qx, qy)),
    decreases x1 - x0,
{
    let row = spec_row_frags(a, b, c, light, y, x0, x1);
    if x0 >= x1 {
        assert(row.len() == 0);
        assert(!covers(row, qx, qy));
    } else {
        let cell = spec_cell(a, b, c, light, x0, y);
        let rest = spec_row_frags(a, b, c, light, y, x0 + 1, x1);
        lemma_row_covers(a, b, c, light, y, x0 + 1, x1, qx, qy);
        if covers(row, qx, qy) {
            let i = choose|i: int| 0 <= i < row.len() && row[i].x as int == qx && row[i].y as int == qy;
            if i < cell.len() {
                assert(spec_inside(a, b, c, x0, y));
                assert(row[i] == spec_fragment(a, b, c, light, x0, y));
                assert(qx == x0 && qy == y);
            } else {
                assert(row[i] == rest[i - cell.len()]);
                assert(covers(rest, qx, qy));
            }
        }
        if qy == y && x0 <= qx < x1 && spec_inside(a, b, c, qx, qy) {
            if qx == x0 {
                assert(row[0] == spec_fragment(a, b, c, light, x0, y));
                assert(row[0].x as int == qx && row[0].y as int == qy);
                assert(covers(row, qx, qy));
            } else {
                assert(covers(rest, qx, qy));
                let j = choose|j: int|
                    0 <= j < rest.len() && rest[j].x as int == qx && rest[j].y as int == qy;
                assert(row[cell.len() + j] == rest[j]);
                assert(covers(row, qx, qy));
            }
        }
    }
}

/// A stack of rows covers exactly the inside pixels of its rectangle.
proof fn lemma_rows_covers(
    a: TransformedVertex,
    b: TransformedVertex,
    c: TransformedVertex,
    light: Light,
    y0: int,
    y1: int,
    x0: int,
    x1: int,
    qx: int,
    qy: int,
)
    requires
        0 <= y0,
        y1 <= usize::MAX,
        0 <= x0,
        x1 <= usize::MAX,
    ensures
        covers(spec_rows_frags(a, b, c, light, y0, y1, x0, x1), qx, qy) <==> (y0 <= qy < y1
            && x0 <= qx < x1 && spec_inside(a, b, c, qx, qy)),
    decreases y1 - y0,
{
    let rows = spec_rows_frags(a, b, c, light, y0, y1, x0, x1);
    if y0 >= y1 {
        assert(rows.len() == 0);
        assert(!covers(rows, qx, qy));
    } else {
        let row = spec_row_frags(a, b, c, light, y0, x0, x1);
        let rest = spec_rows_frags(a, b, c, light, y0 + 1, y1, x0, x1);
        lemma_row_covers(a, b, c, light, y0, x0, x1, qx, qy);
        lemma_rows_covers(a, b, c, light, y0 + 1, y1, x0, x1, qx, qy);
        if covers(rows, qx, qy) {
            let i = choose|i: int|
                0 <= i < rows.len() && rows[i].x as int == qx && rows[i].y as int == qy;
            if i < row.len() {
                assert(rows[i] == row[i]);
                assert(covers(row, qx, qy));
            } else {
                assert(rows[i] == rest[i - row.len()]);
                assert(covers(rest, qx, qy));
            }
        }
        if y0 <= qy < y1 && x0 <= qx < x1 && spec_inside(a, b, c, qx, qy) {
            if qy == y0 {
                assert(covers(row, qx, qy));
                let j = choose|j: int|
                    0 <= j < row.len() && row[j].x as int == qx && row[j].y as int == qy;
                assert(rows[j] == row[j]);
                assert(covers(rows, qx, qy));
            } else {
                assert(covers(rest, qx, qy));
                let j = choose|j: int|
                    0 <= j < rest.len() && rest[j].x as int == qx && rest[j].y as int == qy;
                assert(rows[row.len() + j] == rest[j]);
                assert(covers(rows, qx, qy));
            }
        }
    }
}

/// The rasterizer's coverage, pixel by pixel: `triangle` emits a fragment
/// for (x, y) exactly when the pixel lies in the screen-clamped bounding box
/// and all three barycentric weights lie in [0, 1].
pub proof fn lemma_triangle_covers(
    a: TransformedVertex,
    b: TransformedVertex,
    c: TransformedVertex,
    light: Light,
    width: int,
    height: int,
    qx: int,
    qy: int,
)
    requires
        0 <= width <= usize::MAX,
        0 <= height <= usize::MAX,
    ensures
        covers(spec_triangle_frags(a, b, c, light, width, height), qx, qy) <==> (spec_y_lo(
            a, b, c, height,
        ) <= qy < spec_y_hi(a, b, c, height) && spec_x_lo(a, b, c, width) <= qx < spec_x_hi(
            a, b, c, width,
        ) && spec_inside(a, b, c, qx, qy)),
{
    lemma_rows_covers(
        a,
        b,
        c,
        light,
        spec_y_lo(a, b, c, height),
        spec_y_hi(a, b, c, height),
        spec_x_lo(a, b, c, width),
        spec_x_hi(a, b, c, width),
        qx,
        qy,
    );
}

/// Rows of a degenerate triangle hold no fragments.
proof fn lemma_rows_empty_degenerate(
    a: TransformedVertex,
    b: TransformedVertex,
    c: TransformedVertex,
    light: Light,
    y0: int,
    y1: int,
    x0: int,
    x1: int,
)
    requires
        spec_denom(a, b, c) == 0,
    ensures
        spec_rows_frags(a, b, c, light, y0, y1, x0, x1) == Seq::<Fragment>::empty(),
    decreases y1 - y0,
{
    if y0 < y1 {
        lemma_row_empty_degenerate(a, b, c, light, y0, x0, x1);
        lemma_rows_empty_degenerate(a, b, c, light, y0 + 1, y1, x0, x1);
        assert(spec_rows_frags(a, b, c, light, y0, y1, x0, x1) =~= Seq::<Fragment>::empty());
    }
}

proof fn lemma_row_empty_degenerate(
    a: TransformedVertex,
    b: TransformedVertex,
    c: TransformedVertex,
    light: Light,
    y: int,
    x0: int,
    x1: int,
)
    requires
        spec_denom(a, b, c) == 0,
    ensures
        spec_row_frags(a, b, c, light, y, x0, x1) == Seq::<Fragment>::empty(),
    decreases x1 - x0,
{
    if x0 < x1 {
        lemma_row_empty_degenerate(a, b, c, light, y, x0 + 1, x1);
        assert(spec_row_frags(a, b, c, light, y, x0, x1) =~= Seq::<Fragment>::empty());
    }
}

/// A triangle with two coincident vertices rasterizes to no fragments at
/// all: its area is zero, so no pixel passes the inside test.
pub proof fn lemma_degenerate_triangle(
    a: TransformedVertex,
    b: TransformedVertex,
    c: TransformedVertex,
    light: Light,
    width: int,
    height: int,
)
    requires
        a.position == b.position || b.position == c.position || a.position == c.position,
    ensures
        spec_triangle_frags(a, b, c, light, width, height) == Seq::<Fragment>::empty(),
{
    let ax = spec_px_x(a);
    let ay = spec_px_y(a);
    let bx = spec_px_x(b);
    let by = spec_px_y(b);
    let cx = spec_px_x(c);
    let cy = spec_px_y(c);
    if a.position == b.position {
        assert((bx - ax) * (cy - ay) == 0 && (by - ay) * (cx - ax) == 0) by (nonlinear_arith)
            requires
                bx == ax,
                by == ay;
    } else if b.position == c.position {
        assert((bx - ax) * (cy - ay) == (by - ay) * (cx - ax)) by (nonlinear_arith)
            requires
                bx == cx,
                by == cy;
    } else {
        assert((bx - ax) * (cy - ay) == 0 && (by - ay) * (cx - ax) == 0) by (nonlinear_arith)
            requires
                cx == ax,
                cy == ay;
    }
    assert(spec_denom(a, b, c) == 0);
    lemma_rows_empty_degenerate(
        a,
        b,
        c,
        light,
        spec_y_lo(a, b, c, height),
        spec_y_hi(a, b, c, height),
        spec_x_lo(a, b, c, width),
        spec_x_hi(a, b, c, width),
    );
}

/// Coverage of the axis-aligned right triangle with screen vertices
/// (0, 0), (4, 0) and (0, 4): the rasterizer emits fragments for exactly
/// the integer pixels with x >= 0, y >= 0, x + y <= 4; the sequence starts
/// at pixel (0, 0); and the depth interpolated there is exactly the first
/// vertex's depth, whatever the three vertex depths are.
pub proof fn lemma_right_triangle_coverage(
    a: TransformedVertex,
    b: TransformedVertex,
    c: TransformedVertex,
    light: Light,
    width: int,
    height: int,
    qx: int,
    qy: int,
)
    requires
        a.position.x == 0 && a.position.y == 0,
        b.position.x == 4 * FX_ONE && b.position.y == 0,
        c.position.x == 0 && c.position.y == 4 * FX_ONE,
        5 <= width <= 32768,
        5 <= height <= 32768,
    ensures
        covers(spec_triangle_frags(a, b, c, light, width, height), qx, qy) <==> (0 <= qx && 0 <= qy
            && qx + qy <= 4),
        spec_triangle_frags(a, b, c, light, width, height)[0] == spec_fragment(a, b, c, light, 0, 0),
        spec_fragment(a, b, c, light, 0, 0).depth == a.position.z,
{
    assert(spec_px_x(a) == 0 && spec_px_y(a) == 0);
    assert(spec_px_x(b) == 4 && spec_px_y(b) == 0);
    assert(spec_px_x(c) == 0 && spec_px_y(c) == 4);
    assert(spec_denom(a, b, c) == 16);
    assert(spec_x_lo(a, b, c, width) == 0);
    assert(spec_x_hi(a, b, c, width) == 5);
    assert(spec_y_lo(a, b, c, height) == 0);
    assert(spec_y_hi(a, b, c, height) == 5);
    lemma_triangle_covers(a, b, c, light, width, height, qx, qy);
    assert(spec_w0(a, b, c, qx, qy) == 16 - 4 * qx - 4 * qy) by (nonlinear_arith)
        requires
            spec_w0(a, b, c, qx, qy) == (0 - 4) * (qy - 0) - (4 - 0) * (qx - 4);
    assert(spec_w1(a, b, c, qx, qy) == 4 * qx) by (nonlinear_arith)
        requires
            spec_w1(a, b, c, qx, qy) == (0 - 0) * (qy - 4) - (0 - 4) * (qx - 0);
    assert(spec_w2(a, b, c, qx, qy) == 4 * qy) by (nonlinear_arith)
        requires
            spec_w2(a, b, c, qx, qy) == (4 - 0) * (qy - 0) - (0 - 0) * (qx - 0);
    assert(spec_inside(a, b, c, qx, qy) <==> (0 <= qx && 0 <= qy && qx + qy <= 4));

    // The sequence opens with the fragment of pixel (0, 0).
    let frags = spec_triangle_frags(a, b, c, light, width, height);
    let row0 = spec_row_frags(a, b, c, light, 0, 0, 5);
    assert(spec_inside(a, b, c, 0, 0));
    assert(row0 == spec_cell(a, b, c, light, 0, 0) + spec_row_frags(a, b, c, light, 0, 1, 5));
    assert(row0[0] == spec_fragment(a, b, c, light, 0, 0));
    assert(frags == row0 + spec_rows_frags(a, b, c, light, 1, 5, 0, 5));
    assert(frags[0] == row0[0]);

    // At the first vertex the first normalized weight is exactly one and the
    // other two are zero, so the interpolated depth is that vertex's depth.
    assert(spec_w0(a, b, c, 0, 0) == 16);
    assert(spec_w1(a, b, c, 0, 0) == 0);
    assert(spec_w2(a, b, c, 0, 0) == 0);
    assert(spec_norm_weight(16, 16) == FX_ONE);
    assert(spec_norm_weight(0, 16) == 0);
    let z0 = a.position.z as int;
    assert(65536 * z0 + 0 * (b.position.z as int) + 0 * (c.position.z as int) == z0 * 65536)
        by (nonlinear_arith);
    crate::fixed::lemma_tdiv_cancel(z0, 65536);
    assert(spec_interp(65536, 0, 0, z0, b.position.z as int, c.position.z as int) == z0);
}

/// Clamp a pixel coordinate into [0, limit] as a loop bound.
fn clamp_to(v: i64, limit: usize) -> (r: usize)
    ensures
        r as int == clamp_int(v as int, 0, limit as int),
        r <= limit,
{
    if v < 0 {
        0
    } else if v as u64 > limit as u64 {
        limit
    } else {
        v as usize
    }
}

} // verus!
