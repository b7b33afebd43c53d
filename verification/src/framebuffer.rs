//! The framebuffer: a color buffer and a depth buffer of the same shape,
//! mutated only through bounds-checked, nearest-wins depth-tested pixel
//! writes and a whole-buffer clear.

use vstd::prelude::*;

use crate::fragment::Color;

verus! {

/// The far-depth sentinel `clear` resets the depth buffer to: no greater
/// depth value exists, so the first in-range write at any depth below it wins.
pub const FAR_DEPTH: i64 = 0x7fff_ffff_ffff_ffff;

/// The widest framebuffer side the pipeline accepts, so that pixel indexing
/// arithmetic stays well inside `usize`.
pub const MAX_DIM: usize = 32768;

/// The mathematical model of a framebuffer: row-major color and depth
/// sequences plus the dimensions and the configured background color.
#[verifier::ext_equal]
pub struct FbModel {
    pub width: int,
    pub height: int,
    pub colors: Seq<Color>,
    pub depths: Seq<i64>,
    pub background: Color,
}

/// The row-major index of pixel (x, y).
pub open spec fn pix_idx(m: FbModel, x: int, y: int) -> int {
    y * m.width + x
}

/// Well-formedness: both buffers cover exactly width * height pixels and the
/// dimensions are within the accepted range.
pub open spec fn fb_wf(m: FbModel) -> bool {
    &&& 0 <= m.width <= MAX_DIM
    &&& 0 <= m.height <= MAX_DIM
    &&& m.colors.len() == m.width * m.height
    &&& m.depths.len() == m.width * m.height
}

/// What one `point` call does to the model: nothing when (x, y) is out of
/// range or the submitted depth is not strictly nearer than the stored one;
/// otherwise color and depth are updated together.
pub open spec fn point_spec(m: FbModel, x: int, y: int, color: Color, depth: int) -> FbModel {
    if 0 <= x < m.width && 0 <= y < m.height && depth < m.depths[pix_idx(m, x, y)] as int {
        FbModel {
            colors: m.colors.update(pix_idx(m, x, y), color),
            depths: m.depths.update(pix_idx(m, x, y), depth as i64),
            ..m
        }
    } else {
        m
    }
}

/// What `clear` does to the model: every pixel takes the background color
/// and the far-depth sentinel.
pub open spec fn clear_spec(m: FbModel) -> FbModel {
    FbModel {
        colors: Seq::new(m.colors.len(), |i: int| m.background),
        depths: Seq::new(m.depths.len(), |i: int| FAR_DEPTH),
        ..m
    }
}

/// A software framebuffer owning its color and depth buffers.
pub struct Framebuffer {
    width: usize,
    height: usize,
    colors: Vec<Color>,
    depths: Vec<i64>,
    background: Color,
}

impl View for Framebuffer {
    type V = FbModel;

    closed spec fn view(&self) -> FbModel {
        FbModel {
            width: self.width as int,
            height: self.height as int,
            colors: self.colors@,
            depths: self.depths@,
            background: self.background,
        }
    }
}

impl Framebuffer {
    /// A fresh framebuffer: black background, every pixel cleared.
    pub fn new(width: u32, height: u32) -> (r: Framebuffer)
        requires
            width <= MAX_DIM,
            height <= MAX_DIM,
        ensures
            fb_wf(r@),
            r@.width == width,
            r@.height == height,
            r@.background == (Color { r: 0, g: 0, b: 0 }),
            r@ == clear_spec(r@),
    {
        let w: usize = width as usize;
        let h: usize = height as usize;
        proof {
            assert((w as int) * (h as int) <= 0x40000000) by (nonlinear_arith)
                requires
                    w as int <= 32768,
                    h as int <= 32768;
        }
        let n: usize = w * h;
        let black = Color { r: 0, g: 0, b: 0 };
        let mut colors: Vec<Color> = Vec::new();
        let mut depths: Vec<i64> = Vec::new();
        let mut i: usize = 0;
        while i < n
            invariant
                i <= n,
                colors@ =~= Seq::new(i as nat, |j: int| black),
                depths@ =~= Seq::new(i as nat, |j: int| FAR_DEPTH),
            decreases n - i,
        {
            colors.push(black);
            depths.push(FAR_DEPTH);
            i = i + 1;
        }
        let fb = Framebuffer { width: w, height: h, colors, depths, background: black };
        proof {
            assert(fb@.colors =~= Seq::new(fb@.colors.len(), |j: int| fb@.background));
            assert(fb@.depths =~= Seq::new(fb@.depths.len(), |j: int| FAR_DEPTH));
            assert(fb@ =~= clear_spec(fb@));
        }
        fb
    }

    /// The background color `clear` paints.
    pub fn set_background_color(&mut self, color: Color)
        ensures
            final(self)@ == (FbModel { background: color, ..old(self)@ }),
    {
        self.background = color;
    }

    pub fn width(&self) -> (r: usize)
        ensures
            r as int == self@.width,
    {
        self.width
    }

    pub fn height(&self) -> (r: usize)
        ensures
            r as int == self@.height,
    {
        self.height
    }

    /// The stored color at (x, y), or None outside the buffer.
    pub fn color_at(&self, x: usize, y: usize) -> (r: Option<Color>)
        requires
            fb_wf(self@),
        ensures
            r == (if 0 <= x < self@.width && 0 <= y < self@.height {
                Some(self@.colors[pix_idx(self@, x as int, y as int)])
            } else {
                None::<Color>
            }),
    {
        if x < self.width && y < self.height {
            proof {
                lemma_pix_idx_in_range(self@, x as int, y as int);
            }
            Some(self.colors[y * self.width + x])
        } else {
            None
        }
    }

    /// The stored depth at (x, y), or None outside the buffer.
    pub fn depth_at(&self, x: usize, y: usize) -> (r: Option<i64>)
        requires
            fb_wf(self@),
        ensures
            r == (if 0 <= x < self@.width && 0 <= y < self@.height {
                Some(self@.depths[pix_idx(self@, x as int, y as int)])
            } else {
                None::<i64>
            }),
    {
        if x < self.width && y < self.height {
            proof {
                lemma_pix_idx_in_range(self@, x as int, y as int);
            }
            Some(self.depths[y * self.width + x])
        } else {
            None
        }
    }

    /// The whole color buffer, row-major, for presentation.
    pub fn colors(&self) -> (r: &Vec<Color>)
        ensures
            r@ == self@.colors,
    {
        &self.colors
    }

    /// Reset every pixel to the background color and the far-depth sentinel.
    pub fn clear(&mut self)
        requires
            fb_wf(old(self)@),
        ensures
            fb_wf(final(self)@),
            final(self)@ == clear_spec(old(self)@),
    {
        let n: usize = self.colors.len();
        let mut i: usize = 0;
        while i < n
            invariant
                i <= n,
                n == old(self)@.colors.len(),
                self.width == old(self).width,
                self.height == old(self).height,
                self.background == old(self).background,
                self.colors@.len() == n,
                self.depths@.len() == old(self)@.depths.len(),
                forall|j: int| 0 <= j < i ==> self.colors@[j] == self.background,
                forall|j: int| 0 <= j < i && j < self.depths@.len() ==> self.depths@[j] == FAR_DEPTH,
                forall|j: int| i <= j < n ==> self.colors@[j] == old(self)@.colors[j],
                forall|j: int| i <= j < self.depths@.len() ==> self.depths@[j] == old(self)@.depths[j],
            decreases n - i,
        {
            self.colors.set(i, self.background);
            if i < self.depths.len() {
                self.depths.set(i, FAR_DEPTH);
            }
            i = i + 1;
        }
        proof {
            assert(self@.colors =~= Seq::new(old(self)@.colors.len(), |j: int| old(self)@.background));
            assert(self@.depths =~= Seq::new(old(self)@.depths.len(), |j: int| FAR_DEPTH));
            assert(self@ =~= clear_spec(old(self)@));
        }
    }

    /// Depth-tested pixel write: out-of-range coordinates are silently
    /// ignored; an in-range write lands only if strictly nearer than the
    /// stored depth, and then updates color and depth together.
    pub fn point(&mut self, x: i64, y: i64, color: Color, depth: i64)
        requires
            fb_wf(old(self)@),
        ensures
            fb_wf(final(self)@),
            final(self)@ == point_spec(old(self)@, x as int, y as int, color, depth as int),
    {
        if x >= 0 && y >= 0 && x < self.width as i64 && y < self.height as i64 {
            let xi: usize = x as usize;
            let yi: usize = y as usize;
            proof {
                lemma_pix_idx_in_range(self@, xi as int, yi as int);
            }
            let i: usize = yi * self.width + xi;
            if depth < self.depths[i] {
                self.colors.set(i, color);
                self.depths.set(i, depth);
            }
        }
    }
}

/// An in-range pixel's row-major index is within both buffers.
pub proof fn lemma_pix_idx_in_range(m: FbModel, x: int, y: int)
    requires
        fb_wf(m),
        0 <= x < m.width,
        0 <= y < m.height,
    ensures
        0 <= pix_idx(m, x, y) < m.width * m.height,
        y * m.width + x == pix_idx(m, x, y),
        m.width * m.height <= 0x40000000,
{
    assert(0 <= y * m.width + x < m.width * m.height && m.width * m.height <= 0x40000000)
        by (nonlinear_arith)
        requires
            0 <= x < m.width,
            0 <= y < m.height,
            m.width <= 32768,
            m.height <= 32768;
}

/// A depth-tested write preserves well-formedness, the dimensions and the
/// background.
pub proof fn lemma_point_spec_wf(m: FbModel, x: int, y: int, color: Color, depth: int)
    requires
        fb_wf(m),
    ensures
        fb_wf(point_spec(m, x, y, color, depth)),
        point_spec(m, x, y, color, depth).width == m.width,
        point_spec(m, x, y, color, depth).height == m.height,
        point_spec(m, x, y, color, depth).background == m.background,
{
    if 0 <= x < m.width && 0 <= y < m.height {
        lemma_pix_idx_in_range(m, x, y);
    }
}

/// Out-of-range writes leave the framebuffer untouched.
pub proof fn lemma_point_out_of_bounds(m: FbModel, x: int, y: int, color: Color, depth: int)
    requires
        !(0 <= x < m.width && 0 <= y < m.height),
    ensures
        point_spec(m, x, y, color, depth) == m,
{
}

/// Two consecutive clears leave the buffer exactly as one clear does.
pub proof fn lemma_clear_idempotent(m: FbModel)
    ensures
        clear_spec(clear_spec(m)) == clear_spec(m),
{
    assert(clear_spec(clear_spec(m)).colors =~= clear_spec(m).colors);
    assert(clear_spec(clear_spec(m)).depths =~= clear_spec(m).depths);
    assert(clear_spec(clear_spec(m)) =~= clear_spec(m));
}

/// One submission to a single pixel: the color/depth pair of one `point` call.
#[derive(Clone, Copy, PartialEq, Eq, Structural, Debug)]
pub struct PointCall {
    pub color: Color,
    pub depth: i64,
}

/// The model after a whole sequence of `point` calls to the same pixel.
pub open spec fn apply_calls(m: FbModel, x: int, y: int, calls: Seq<PointCall>) -> FbModel
    decreases calls.len(),
{
    if calls.len() == 0 {
        m
    } else {
        apply_calls(
            point_spec(m, x, y, calls[0].color, calls[0].depth as int),
            x,
            y,
            calls.drop_first(),
        )
    }
}

pub open spec fn min_int(a: int, b: int) -> int {
    if a < b {
        a
    } else {
        b
    }
}

/// The minimum depth among `d0` and all submitted depths.
pub open spec fn min_depth(d0: int, calls: Seq<PointCall>) -> int
    decreases calls.len(),
{
    if calls.len() == 0 {
        d0
    } else {
        min_depth(min_int(d0, calls[0].depth as int), calls.drop_first())
    }
}

/// Any sequence of `point` calls to one in-range pixel leaves that pixel's
/// stored depth at the minimum of the initial depth and every submitted
/// depth, changes nothing anywhere else, and keeps the dimensions and the
/// background.
pub proof fn lemma_depth_wins(m: FbModel, x: int, y: int, calls: Seq<PointCall>)
    requires
        fb_wf(m),
        0 <= x < m.width,
        0 <= y < m.height,
    ensures
        fb_wf(apply_calls(m, x, y, calls)),
        apply_calls(m, x, y, calls).width == m.width,
        apply_calls(m, x, y, calls).height == m.height,
        apply_calls(m, x, y, calls).background == m.background,
        apply_calls(m, x, y, calls).depths[pix_idx(m, x, y)] as int == min_depth(
            m.depths[pix_idx(m, x, y)] as int,
            calls,
        ),
        forall|j: int|
            0 <= j < m.colors.len() && j != pix_idx(m, x, y) ==> apply_calls(
                m,
                x,
                y,
                calls,
            ).colors[j] == m.colors[j],
        forall|j: int|
            0 <= j < m.depths.len() && j != pix_idx(m, x, y) ==> apply_calls(
                m,
                x,
                y,
                calls,
            ).depths[j] == m.depths[j],
    decreases calls.len(),
{
    lemma_pix_idx_in_range(m, x, y);
    if calls.len() > 0 {
        let p = pix_idx(m, x, y);
        let m1 = point_spec(m, x, y, calls[0].color, calls[0].depth as int);
        assert(pix_idx(m1, x, y) == p);
        lemma_depth_wins(m1, x, y, calls.drop_first());
        assert(apply_calls(m, x, y, calls) == apply_calls(m1, x, y, calls.drop_first()));
        assert forall|j: int| 0 <= j < m.colors.len() && j != p implies apply_calls(
            m,
            x,
            y,
            calls,
        ).colors[j] == m.colors[j] by {
            assert(m1.colors[j] == m.colors[j]);
        }
        assert forall|j: int| 0 <= j < m.depths.len() && j != p implies apply_calls(
            m,
            x,
            y,
            calls,
        ).depths[j] == m.depths[j] by {
            assert(m1.depths[j] == m.depths[j]);
        }
    }
}

/// Calls none of which is strictly nearer than the stored depth change
/// nothing at all.
pub proof fn lemma_no_nearer_no_write(m: FbModel, x: int, y: int, calls: Seq<PointCall>)
    requires
        fb_wf(m),
        0 <= x < m.width,
        0 <= y < m.height,
        forall|j: int| 0 <= j < calls.len() ==> #[trigger] calls[j].depth as int >= m.depths[pix_idx(m, x, y)] as int,
    ensures
        apply_calls(m, x, y, calls) == m,
    decreases calls.len(),
{
    lemma_pix_idx_in_range(m, x, y);
    if calls.len() > 0 {
        assert(calls[0].depth as int >= m.depths[pix_idx(m, x, y)] as int);
        let m1 = point_spec(m, x, y, calls[0].color, calls[0].depth as int);
        assert(m1 == m);
        assert(forall|j: int|
            0 <= j < calls.drop_first().len() ==> #[trigger] calls.drop_first()[j].depth as int
                >= m.depths[pix_idx(m, x, y)] as int);
        lemma_no_nearer_no_write(m, x, y, calls.drop_first());
    }
}

/// The depth-wins property for the final color: when one call's depth is the
/// unique strict minimum among the submitted depths and it beats the stored
/// depth, the pixel ends with exactly that call's color and depth, in
/// whatever position of the sequence the call stands.
pub proof fn lemma_depth_wins_color(
    m: FbModel,
    x: int,
    y: int,
    calls: Seq<PointCall>,
    i: int,
)
    requires
        fb_wf(m),
        0 <= x < m.width,
        0 <= y < m.height,
        0 <= i < calls.len(),
        (calls[i].depth as int) < m.depths[pix_idx(m, x, y)] as int,
        forall|j: int| 0 <= j < calls.len() && j != i ==> #[trigger] calls[j].depth > calls[i].depth,
    ensures
        apply_calls(m, x, y, calls).colors[pix_idx(m, x, y)] == calls[i].color,
        apply_calls(m, x, y, calls).depths[pix_idx(m, x, y)] == calls[i].depth,
    decreases calls.len(),
{
    lemma_pix_idx_in_range(m, x, y);
    let p = pix_idx(m, x, y);
    let m1 = point_spec(m, x, y, calls[0].color, calls[0].depth as int);
    let rest = calls.drop_first();
    if i == 0 {
        assert(m1.colors[p] == calls[0].color);
        assert(m1.depths[p] == calls[0].depth);
        assert(pix_idx(m1, x, y) == p);
        assert(forall|j: int|
            0 <= j < rest.len() ==> #[trigger] rest[j].depth as int >= m1.depths[pix_idx(m1, x, y)] as int);
        lemma_no_nearer_no_write(m1, x, y, rest);
    } else {
        assert(m1.width == m.width && m1.height == m.height);
        assert(pix_idx(m1, x, y) == p);
        assert(m1.depths[p] as int > calls[i].depth as int);
        assert(rest[i - 1] == calls[i]);
        assert(forall|j: int|
            0 <= j < rest.len() && j != i - 1 ==> #[trigger] rest[j].depth > rest[i - 1].depth);
        lemma_depth_wins_color(m1, x, y, rest, i - 1);
    }
}

} // verus!
