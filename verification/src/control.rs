//! The viewport controller: the state machine behind the interaction
//! loop.
//!
//! The state is the current viewport and iteration depth.  A zoom-in
//! shrinks the viewport by 10% per axis, biased toward the clicked
//! point; a zoom-out widens it by 10% per axis symmetrically; the depth
//! moves in steps of 100 with a floor at 100.  Transitions that would
//! push a coordinate past `COORD_LIMIT` (or the depth past the machine
//! word) leave the state unchanged instead.

use crate::fixed::{
    fp_mul, lemma_div_bounds, lemma_fp_mul_in_span, lemma_fp_tenth, lemma_scaled_ratio_bound,
    mul_fp, SCALE, TENTH,
};
use crate::plane::{
    initial_viewport, map_im, map_re, x_y_to_complex, Cplx, Viewport, COORD_LIMIT,
};
use vstd::arithmetic::div_mod::{
    lemma_fundamental_div_mod, lemma_mod_division_less_than_divisor,
};
use vstd::arithmetic::mul::{
    lemma_mul_is_commutative, lemma_mul_nonnegative, lemma_mul_upper_bound,
};
use vstd::prelude::*;

verus! {

/// Amount by which one key press moves the iteration depth.
pub const DEPTH_STEP: u32 = 100;

/// Depth never drops below this floor.
pub const DEPTH_FLOOR: u32 = 100;

/// Depth at startup.
pub const DEPTH_INITIAL: u32 = 200;

/// The zoom-out offsets, one tenth of each span.
pub open spec fn out_step_re(v: Viewport) -> int {
    fp_mul(v.d_re(), TENTH as int)
}

pub open spec fn out_step_im(v: Viewport) -> int {
    fp_mul(v.d_im(), TENTH as int)
}

/// A zoom-out keeps every corner within `COORD_LIMIT`.
pub open spec fn can_zoom_out(v: Viewport) -> bool {
    &&& v.top_left.re - out_step_re(v) >= -COORD_LIMIT
    &&& v.bottom_right.re + out_step_re(v) <= COORD_LIMIT
    &&& v.top_left.im - out_step_im(v) >= -COORD_LIMIT
    &&& v.bottom_right.im + out_step_im(v) <= COORD_LIMIT
}

/// The widened viewport of a zoom-out: both corners move outward by a
/// tenth of the span on each axis.
pub open spec fn zoom_out_spec(v: Viewport) -> Viewport {
    Viewport {
        top_left: Cplx {
            re: (v.top_left.re - out_step_re(v)) as i64,
            im: (v.top_left.im - out_step_im(v)) as i64,
        },
        bottom_right: Cplx {
            re: (v.bottom_right.re + out_step_re(v)) as i64,
            im: (v.bottom_right.im + out_step_im(v)) as i64,
        },
    }
}

/// Relative position of the clicked plane point within the viewport,
/// as a fixed-point fraction per axis.
pub open spec fn click_rel_re(v: Viewport, x: int, w: int) -> int {
    ((map_re(x, w, v) - v.top_left.re) * SCALE) / v.d_re()
}

pub open spec fn click_rel_im(v: Viewport, y: int, h: int) -> int {
    ((map_im(y, h, v) - v.top_left.im) * SCALE) / v.d_im()
}

/// The shrunken viewport of a zoom-in at pixel (x, y): each axis loses a
/// tenth of its span, split between the two corners in proportion to the
/// relative click position, so the view drifts toward the click.
pub open spec fn zoom_in_spec(v: Viewport, x: int, y: int, w: int, h: int) -> Viewport {
    let ar = fp_mul(v.d_re(), TENTH as int);
    let ai = fp_mul(v.d_im(), TENTH as int);
    let relr = click_rel_re(v, x, w);
    let reli = click_rel_im(v, y, h);
    Viewport {
        top_left: Cplx {
            re: (v.top_left.re + fp_mul(ar, relr)) as i64,
            im: (v.top_left.im + fp_mul(ai, reli)) as i64,
        },
        bottom_right: Cplx {
            re: (v.bottom_right.re - fp_mul(ar, SCALE - relr)) as i64,
            im: (v.bottom_right.im - fp_mul(ai, SCALE - reli)) as i64,
        },
    }
}

/// A tenth of a positive span is less than half of it; this keeps a
/// zoom-in span positive.
proof fn lemma_tenth_below_half(d: int)
    requires
        d >= 1,
    ensures
        0 <= d / 10,
        2 * (d / 10) < d,
{
    lemma_fundamental_div_mod(d, 10);
    lemma_mod_division_less_than_divisor(d, 10);
}

/// Widens the viewport by a tenth of its span on each side of each
/// axis; a step that would leave the admissible square is refused and
/// the viewport returned unchanged.
pub fn zoom_out(v: &Viewport) -> (v2: Viewport)
    requires
        v.wf(),
    ensures
        v2 == if can_zoom_out(*v) {
            zoom_out_spec(*v)
        } else {
            *v
        },
        v2.wf(),
{
    let d_re: i64 = v.bottom_right.re - v.top_left.re;
    let d_im: i64 = v.bottom_right.im - v.top_left.im;
    proof {
        lemma_mul_nonnegative(d_re as int, TENTH as int);
        lemma_mul_upper_bound(d_re as int, 2 * COORD_LIMIT as int, TENTH as int, TENTH as int);
        lemma_mul_nonnegative(d_im as int, TENTH as int);
        lemma_mul_upper_bound(d_im as int, 2 * COORD_LIMIT as int, TENTH as int, TENTH as int);
        lemma_fp_tenth(d_re as int);
        lemma_fp_tenth(d_im as int);
        lemma_div_bounds(d_re as int, 10, 0, d_re as int);
        lemma_div_bounds(d_im as int, 10, 0, d_im as int);
    }
    let sr: i64 = mul_fp(d_re, TENTH);
    let si: i64 = mul_fp(d_im, TENTH);
    if v.top_left.re - sr >= -COORD_LIMIT && v.bottom_right.re + sr <= COORD_LIMIT
        && v.top_left.im - si >= -COORD_LIMIT && v.bottom_right.im + si <= COORD_LIMIT {
        Viewport {
            top_left: Cplx { re: v.top_left.re - sr, im: v.top_left.im - si },
            bottom_right: Cplx { re: v.bottom_right.re + sr, im: v.bottom_right.im + si },
        }
    } else {
        *v
    }
}

/// Shrinks the viewport by a tenth of its span per axis, biased toward
/// the clicked pixel.
pub fn zoom_in(v: &Viewport, x: u32, y: u32, w: u32, h: u32) -> (v2: Viewport)
    requires
        v.wf(),
        x < w,
        y < h,
    ensures
        v2 == zoom_in_spec(*v, x as int, y as int, w as int, h as int),
        v2.wf(),
{
    let cp: Cplx = x_y_to_complex(x, y, w, h, v);
    let d_re: i64 = v.bottom_right.re - v.top_left.re;
    let d_im: i64 = v.bottom_right.im - v.top_left.im;
    proof {
        lemma_scaled_ratio_bound(cp.re - v.top_left.re, d_re as int, SCALE as int);
        lemma_scaled_ratio_bound(cp.im - v.top_left.im, d_im as int, SCALE as int);
        lemma_mul_nonnegative(d_re as int, TENTH as int);
        lemma_mul_upper_bound(d_re as int, 2 * COORD_LIMIT as int, TENTH as int, TENTH as int);
        lemma_mul_nonnegative(d_im as int, TENTH as int);
        lemma_mul_upper_bound(d_im as int, 2 * COORD_LIMIT as int, TENTH as int, TENTH as int);
        lemma_fp_tenth(d_re as int);
        lemma_fp_tenth(d_im as int);
        lemma_tenth_below_half(d_re as int);
        lemma_tenth_below_half(d_im as int);
    }
    let diff_re: u64 = (cp.re - v.top_left.re) as u64;
    let diff_im: u64 = (cp.im - v.top_left.im) as u64;
    proof {
        assert(diff_re * (SCALE as u64) <= 2_000_000_000_000_000_000 && diff_im * (SCALE as u64)
            <= 2_000_000_000_000_000_000) by (nonlinear_arith)
            requires
                diff_re <= 2_000_000_000_000,
                diff_im <= 2_000_000_000_000,
                SCALE == 1_000_000,
        ;
    }
    let rel_re: u64 = diff_re * (SCALE as u64) / (d_re as u64);
    let rel_im: u64 = diff_im * (SCALE as u64) / (d_im as u64);
    let a_re: i64 = mul_fp(d_re, TENTH);
    let a_im: i64 = mul_fp(d_im, TENTH);
    proof {
        lemma_mul_is_commutative(a_re as int, rel_re as int);
        lemma_mul_is_commutative(a_re as int, SCALE as int - rel_re as int);
        lemma_mul_is_commutative(a_im as int, rel_im as int);
        lemma_mul_is_commutative(a_im as int, SCALE as int - rel_im as int);
        lemma_fp_mul_in_span(rel_re as int, a_re as int);
        lemma_fp_mul_in_span(SCALE as int - rel_re as int, a_re as int);
        lemma_fp_mul_in_span(rel_im as int, a_im as int);
        lemma_fp_mul_in_span(SCALE as int - rel_im as int, a_im as int);
        lemma_mul_upper_bound(a_re as int, COORD_LIMIT as int, rel_re as int, SCALE as int);
        lemma_mul_nonnegative(a_re as int, rel_re as int);
        lemma_mul_upper_bound(
            a_re as int,
            COORD_LIMIT as int,
            SCALE as int - rel_re as int,
            SCALE as int,
        );
        lemma_mul_nonnegative(a_re as int, SCALE as int - rel_re as int);
        lemma_mul_upper_bound(a_im as int, COORD_LIMIT as int, rel_im as int, SCALE as int);
        lemma_mul_nonnegative(a_im as int, rel_im as int);
        lemma_mul_upper_bound(
            a_im as int,
            COORD_LIMIT as int,
            SCALE as int - rel_im as int,
            SCALE as int,
        );
        lemma_mul_nonnegative(a_im as int, SCALE as int - rel_im as int);
    }
    let off_tl_re: i64 = mul_fp(a_re, rel_re as i64);
    let off_br_re: i64 = mul_fp(a_re, SCALE - rel_re as i64);
    let off_tl_im: i64 = mul_fp(a_im, rel_im as i64);
    let off_br_im: i64 = mul_fp(a_im, SCALE - rel_im as i64);
    Viewport {
        top_left: Cplx { re: v.top_left.re + off_tl_re, im: v.top_left.im + off_tl_im },
        bottom_right: Cplx { re: v.bottom_right.re - off_br_re, im: v.bottom_right.im - off_br_im },
    }
}

/// One discrete input event of the interaction loop.
#[derive(Clone, Copy, Debug, PartialEq, Eq, Structural)]
pub enum Input {
    /// Escape key or window close.
    Quit,
    /// The "+" key.
    RaiseDepth,
    /// The "-" key.
    LowerDepth,
    /// Left button held, with the pointer at the given pixel.
    ZoomIn(u32, u32),
    /// Right button held.
    ZoomOut,
}

/// The controller state: current viewport and iteration depth.
#[derive(Clone, Copy, Debug, PartialEq, Eq, Structural)]
pub struct ViewState {
    pub viewport: Viewport,
    pub iterations: u32,
}

/// Depth after the "+" key: up one step, unless the machine word is
/// exhausted.
pub open spec fn raise_depth_spec(n: u32) -> u32 {
    if n + DEPTH_STEP <= u32::MAX {
        (n + DEPTH_STEP) as u32
    } else {
        n
    }
}

/// Depth after the "-" key: down one step, refused at the floor.
pub open spec fn lower_depth_spec(n: u32) -> u32 {
    if n > DEPTH_FLOOR {
        (n - DEPTH_STEP) as u32
    } else {
        n
    }
}

/// The depth floor holds forever: from any whole number of steps at or
/// above the floor, neither key press can take the depth below it, so
/// no sequence of presses can.
pub proof fn lemma_depth_floor_preserved(n: u32)
    requires
        n >= DEPTH_FLOOR,
        n % DEPTH_STEP == 0,
    ensures
        raise_depth_spec(n) >= DEPTH_FLOOR,
        raise_depth_spec(n) % DEPTH_STEP == 0,
        lower_depth_spec(n) >= DEPTH_FLOOR,
        lower_depth_spec(n) % DEPTH_STEP == 0,
{
}

/// The state a single input event leads to.
pub open spec fn step_spec(s: ViewState, ev: Input, w: int, h: int) -> ViewState {
    match ev {
        Input::Quit => s,
        Input::RaiseDepth => ViewState {
            viewport: s.viewport,
            iterations: raise_depth_spec(s.iterations),
        },
        Input::LowerDepth => ViewState {
            viewport: s.viewport,
            iterations: lower_depth_spec(s.iterations),
        },
        Input::ZoomIn(x, y) => ViewState {
            viewport: zoom_in_spec(s.viewport, x as int, y as int, w, h),
            iterations: s.iterations,
        },
        Input::ZoomOut => ViewState {
            viewport: if can_zoom_out(s.viewport) {
                zoom_out_spec(s.viewport)
            } else {
                s.viewport
            },
            iterations: s.iterations,
        },
    }
}

/// Whether the interaction loop re-renders after this event.
pub open spec fn renders_spec(s: ViewState, ev: Input) -> bool {
    match ev {
        Input::Quit => false,
        Input::RaiseDepth => true,
        Input::LowerDepth => s.iterations > DEPTH_FLOOR,
        Input::ZoomIn(_, _) => true,
        Input::ZoomOut => true,
    }
}

/// What one loop turn decided: the next state, whether to re-render,
/// whether to leave the loop.
#[derive(Clone, Copy, Debug, PartialEq, Eq, Structural)]
pub struct StepOutcome {
    pub state: ViewState,
    pub render: bool,
    pub quit: bool,
}

impl ViewState {
    /// The state is valid: viewport well-formed, depth at or above the
    /// floor.
    pub open spec fn wf(self) -> bool {
        &&& self.viewport.wf()
        &&& self.iterations >= DEPTH_FLOOR
        &&& self.iterations % DEPTH_STEP == 0
    }

    /// The startup state: the default viewport and depth 200.
    pub fn initial() -> (s: ViewState)
        ensures
            s.wf(),
            s.viewport == initial_viewport(),
            s.iterations == DEPTH_INITIAL,
    {
        ViewState { viewport: Viewport::initial(), iterations: DEPTH_INITIAL }
    }

    /// Applies one input event: the exact transition of the interaction
    /// loop, together with its render and quit decisions.
    pub fn step(self, ev: Input, w: u32, h: u32) -> (r: StepOutcome)
        requires
            self.wf(),
            ev matches Input::ZoomIn(x, y) ==> x < w && y < h,
        ensures
            r.state == step_spec(self, ev, w as int, h as int),
            r.state.wf(),
            r.render == renders_spec(self, ev),
            r.quit == (ev matches Input::Quit),
    {
        match ev {
            Input::Quit => StepOutcome { state: self, render: false, quit: true },
            Input::RaiseDepth => {
                let n: u32 = if self.iterations <= u32::MAX - DEPTH_STEP {
                    self.iterations + DEPTH_STEP
                } else {
                    self.iterations
                };
                StepOutcome {
                    state: ViewState { viewport: self.viewport, iterations: n },
                    render: true,
                    quit: false,
                }
            },
            Input::LowerDepth => {
                let render: bool = self.iterations > DEPTH_FLOOR;
                let n: u32 = if self.iterations > DEPTH_FLOOR {
                    self.iterations - DEPTH_STEP
                } else {
                    self.iterations
                };
                StepOutcome {
                    state: ViewState { viewport: self.viewport, iterations: n },
                    render,
                    quit: false,
                }
            },
            Input::ZoomIn(x, y) => {
                let v2: Viewport = zoom_in(&self.viewport, x, y, w, h);
                StepOutcome {
                    state: ViewState { viewport: v2, iterations: self.iterations },
                    render: true,
                    quit: false,
                }
            },
            Input::ZoomOut => {
                let v2: Viewport = zoom_out(&self.viewport);
                StepOutcome {
                    state: ViewState { viewport: v2, iterations: self.iterations },
                    render: true,
                    quit: false,
                }
            },
        }
    }
}

} // verus!
