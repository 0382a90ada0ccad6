//! Points of the complex plane and the visible viewport.
//!
//! A point stores its real and imaginary coordinates as fixed-point raw
//! values.  The viewport is the rectangle of the plane currently mapped
//! onto the window; its spans are positive and its corners stay within
//! `COORD_LIMIT`, so every coordinate computation fits the machine word.

use crate::fixed::{fp_mul, lemma_fp_mul_in_span, lemma_scaled_ratio_bound, mul_fp, SCALE};
use vstd::arithmetic::mul::{lemma_mul_nonnegative, lemma_mul_upper_bound};
use vstd::prelude::*;

verus! {

/// Largest raw magnitude a viewport corner may have (one million in
/// plane units): ample for any zoom the viewer can reach, and small
/// enough that all intermediate products fit in 64 bits.
pub const COORD_LIMIT: i64 = 1_000_000_000_000;

/// A point of the complex plane, both coordinates in fixed-point raw
/// units.
#[derive(Clone, Copy, Debug, PartialEq, Eq, Structural)]
pub struct Cplx {
    pub re: i64,
    pub im: i64,
}

impl Cplx {
    /// The point lies within the square of admissible coordinates.
    pub open spec fn in_range(self) -> bool {
        &&& -COORD_LIMIT <= self.re <= COORD_LIMIT
        &&& -COORD_LIMIT <= self.im <= COORD_LIMIT
    }

    pub fn new(re: i64, im: i64) -> (c: Cplx)
        ensures
            c.re == re,
            c.im == im,
    {
        Cplx { re, im }
    }
}

/// The rectangle of the complex plane shown in the window, given by its
/// top-left and bottom-right corners.
#[derive(Clone, Copy, Debug, PartialEq, Eq, Structural)]
pub struct Viewport {
    pub top_left: Cplx,
    pub bottom_right: Cplx,
}

impl Viewport {
    /// Well-formed: both spans positive, corners within bounds.
    pub open spec fn wf(self) -> bool {
        &&& self.top_left.in_range()
        &&& self.bottom_right.in_range()
        &&& self.top_left.re < self.bottom_right.re
        &&& self.top_left.im < self.bottom_right.im
    }

    /// Real-axis span, in raw units.
    pub open spec fn d_re(self) -> int {
        self.bottom_right.re - self.top_left.re
    }

    /// Imaginary-axis span, in raw units.
    pub open spec fn d_im(self) -> int {
        self.bottom_right.im - self.top_left.im
    }

    /// The startup viewport, the rectangle from -2-1.5i to 2+1.5i.
    pub fn initial() -> (v: Viewport)
        ensures
            v == initial_viewport(),
            v.wf(),
    {
        Viewport {
            top_left: Cplx { re: -2_000_000, im: -1_500_000 },
            bottom_right: Cplx { re: 2_000_000, im: 1_500_000 },
        }
    }
}

/// The startup viewport as a spec value.
pub open spec fn initial_viewport() -> Viewport {
    Viewport {
        top_left: Cplx { re: -2_000_000i64, im: -1_500_000i64 },
        bottom_right: Cplx { re: 2_000_000i64, im: 1_500_000i64 },
    }
}

/// Relative position of pixel index `p` within a window extent of
/// `extent` pixels, as a fixed-point fraction of one.
pub open spec fn rel_coord(p: int, extent: int) -> int {
    (p * SCALE) / extent
}

/// Real coordinate of the plane point that pixel column `x` maps to.
pub open spec fn map_re(x: int, w: int, v: Viewport) -> int {
    v.top_left.re + fp_mul(rel_coord(x, w), v.d_re())
}

/// Imaginary coordinate of the plane point that pixel row `y` maps to.
pub open spec fn map_im(y: int, h: int, v: Viewport) -> int {
    v.top_left.im + fp_mul(rel_coord(y, h), v.d_im())
}

/// The mapped point of a pixel within the window never leaves the
/// rectangle spanned by the viewport corners: it reaches the top-left
/// corner at pixel (0,0) and approaches, but never reaches, the
/// bottom-right corner.
pub proof fn lemma_map_in_viewport(x: int, y: int, w: int, h: int, v: Viewport)
    requires
        v.wf(),
        0 <= x < w,
        0 <= y < h,
    ensures
        v.top_left.re <= map_re(x, w, v) < v.bottom_right.re,
        v.top_left.im <= map_im(y, h, v) < v.bottom_right.im,
{
    lemma_scaled_ratio_bound(x, w, SCALE as int);
    lemma_fp_mul_in_span(rel_coord(x, w), v.d_re());
    lemma_scaled_ratio_bound(y, h, SCALE as int);
    lemma_fp_mul_in_span(rel_coord(y, h), v.d_im());
}

/// Maps a pixel coordinate to its point of the complex plane: the
/// relative position within the window, scaled into the viewport
/// rectangle.
pub fn x_y_to_complex(x: u32, y: u32, w: u32, h: u32, v: &Viewport) -> (c: Cplx)
    requires
        v.wf(),
        x < w,
        y < h,
    ensures
        c.re == map_re(x as int, w as int, *v),
        c.im == map_im(y as int, h as int, *v),
        v.top_left.re <= c.re < v.bottom_right.re,
        v.top_left.im <= c.im < v.bottom_right.im,
        c.in_range(),
{
    proof {
        lemma_scaled_ratio_bound(x as int, w as int, SCALE as int);
        lemma_scaled_ratio_bound(y as int, h as int, SCALE as int);
    }
    let rel_x: u64 = (x as u64) * (SCALE as u64) / (w as u64);
    let rel_y: u64 = (y as u64) * (SCALE as u64) / (h as u64);
    let d_re: i64 = v.bottom_right.re - v.top_left.re;
    let d_im: i64 = v.bottom_right.im - v.top_left.im;
    proof {
        lemma_mul_nonnegative(rel_x as int, d_re as int);
        lemma_mul_upper_bound(rel_x as int, SCALE as int, d_re as int, 2 * COORD_LIMIT as int);
        lemma_mul_nonnegative(rel_y as int, d_im as int);
        lemma_mul_upper_bound(rel_y as int, SCALE as int, d_im as int, 2 * COORD_LIMIT as int);
        lemma_fp_mul_in_span(rel_x as int, d_re as int);
        lemma_fp_mul_in_span(rel_y as int, d_im as int);
    }
    let off_re: i64 = mul_fp(rel_x as i64, d_re);
    let off_im: i64 = mul_fp(rel_y as i64, d_im);
    Cplx { re: v.top_left.re + off_re, im: v.top_left.im + off_im }
}

} // verus!
