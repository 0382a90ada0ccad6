//! The escape-time evaluator.
//!
//! Starting from z = 0, the orbit z <- z*z + c is followed for at most
//! `iterations` steps; the step at which the squared norm of z first
//! exceeds 4 (escape radius 2) is returned, or `None` if the orbit stays
//! bounded for the whole budget.  All arithmetic is fixed point, so the
//! evaluator is a total, deterministic integer function with an exact
//! recursive specification.

use crate::fixed::{div_floor, fp_mul, lemma_div_bounds, SCALE};
use crate::plane::{Cplx, COORD_LIMIT};
use vstd::prelude::*;

verus! {

/// Squared escape radius, in raw units squared: the raw norm of a point
/// with |z| = 2.
pub open spec fn escape_threshold() -> int {
    4 * (SCALE as int) * (SCALE as int)
}

/// Real part of one orbit step z*z + c.
pub open spec fn step_re(zr: int, zi: int, cr: int) -> int {
    fp_mul(zr, zr) - fp_mul(zi, zi) + cr
}

/// Imaginary part of one orbit step z*z + c.
pub open spec fn step_im(zr: int, zi: int, ci: int) -> int {
    2 * fp_mul(zr, zi) + ci
}

/// The squared-norm test that ends the orbit.
pub open spec fn escaped(zr: int, zi: int) -> bool {
    zr * zr + zi * zi > escape_threshold()
}

/// The escape index of the orbit continued from z = (zr, zi) at step
/// `i`, with `n` the iteration budget: the first step index at which the
/// stepped point escapes, or `None` if none does before the budget runs
/// out.
pub open spec fn escape_from(zr: int, zi: int, cr: int, ci: int, i: int, n: int) -> Option<int>
    decreases n - i,
{
    if i >= n {
        None
    } else {
        let zr2 = step_re(zr, zi, cr);
        let zi2 = step_im(zr, zi, ci);
        if escaped(zr2, zi2) {
            Some(i)
        } else {
            escape_from(zr2, zi2, cr, ci, i + 1, n)
        }
    }
}

/// The escape index of the point c under iteration budget `n`.
pub open spec fn escape_spec(cr: int, ci: int, n: int) -> Option<int> {
    escape_from(0, 0, cr, ci, 0, n)
}

/// An executable optional count, seen as an optional integer.
pub open spec fn opt_int(r: Option<u32>) -> Option<int> {
    match r {
        Some(k) => Some(k as int),
        None => None,
    }
}

/// An escape index reported from step `i` lies between `i` and the
/// budget.
pub proof fn lemma_escape_from_range(zr: int, zi: int, cr: int, ci: int, i: int, n: int, k: int)
    requires
        escape_from(zr, zi, cr, ci, i, n) == Some(k),
    ensures
        i <= k < n,
    decreases n - i,
{
    if i < n {
        let zr2 = step_re(zr, zi, cr);
        let zi2 = step_im(zr, zi, ci);
        if !escaped(zr2, zi2) {
            lemma_escape_from_range(zr2, zi2, cr, ci, i + 1, n, k);
        }
    }
}

/// Raising the budget cannot change an escape already found: a run that
/// reports index `k` reports the same index under any budget above `k`.
pub proof fn lemma_escape_from_monotonic(
    zr: int,
    zi: int,
    cr: int,
    ci: int,
    i: int,
    n: int,
    m: int,
    k: int,
)
    requires
        escape_from(zr, zi, cr, ci, i, n) == Some(k),
        m >= k + 1,
    ensures
        escape_from(zr, zi, cr, ci, i, m) == Some(k),
    decreases n - i,
{
    lemma_escape_from_range(zr, zi, cr, ci, i, n, k);
    let zr2 = step_re(zr, zi, cr);
    let zi2 = step_im(zr, zi, ci);
    if !escaped(zr2, zi2) {
        lemma_escape_from_range(zr2, zi2, cr, ci, i + 1, n, k);
        lemma_escape_from_monotonic(zr2, zi2, cr, ci, i + 1, n, m, k);
    }
}

/// If `escape(c, n)` reports index `k`, then `escape(c, m)` reports the
/// same `k` for every budget `m >= k + 1`.
pub proof fn lemma_escape_monotonic(cr: int, ci: int, n: int, m: int, k: int)
    requires
        escape_spec(cr, ci, n) == Some(k),
        m >= k + 1,
    ensures
        escape_spec(cr, ci, m) == Some(k),
{
    lemma_escape_from_monotonic(0, 0, cr, ci, 0, n, m, k);
}

/// A run that stays bounded for budget `n` stays bounded for every
/// smaller budget.
pub proof fn lemma_escape_from_none(zr: int, zi: int, cr: int, ci: int, i: int, n: int, m: int)
    requires
        escape_from(zr, zi, cr, ci, i, n) is None,
        m <= n,
    ensures
        escape_from(zr, zi, cr, ci, i, m) is None,
    decreases n - i,
{
    if i < m {
        let zr2 = step_re(zr, zi, cr);
        let zi2 = step_im(zr, zi, ci);
        lemma_escape_from_none(zr2, zi2, cr, ci, i + 1, n, m);
    }
}

/// If `escape(c, n)` is `None`, then `escape(c, m)` is `None` for every
/// budget `m <= n`.
pub proof fn lemma_escape_none_shallower(cr: int, ci: int, n: int, m: int)
    requires
        escape_spec(cr, ci, n) is None,
        m <= n,
    ensures
        escape_spec(cr, ci, m) is None,
{
    lemma_escape_from_none(0, 0, cr, ci, 0, n, m);
}

/// The origin never escapes: its orbit is constantly zero.
pub proof fn lemma_origin_never_escapes(n: int)
    ensures
        escape_spec(0, 0, n) is None,
{
    lemma_zero_orbit_stays(0, n);
}

proof fn lemma_zero_orbit_stays(i: int, n: int)
    ensures
        escape_from(0, 0, 0, 0, i, n) is None,
    decreases n - i,
{
    if i < n {
        assert(fp_mul(0, 0) == 0) by {
            vstd::arithmetic::div_mod::lemma_div_of0(SCALE as int);
        }
        assert(step_re(0, 0, 0) == 0);
        assert(step_im(0, 0, 0) == 0);
        assert(!escaped(0, 0));
        lemma_zero_orbit_stays(i + 1, n);
    }
}

/// The point 3 + 0i escapes at step 0 under any positive budget: its
/// first orbit step lands on 3, whose squared norm 9 already exceeds 4.
pub proof fn lemma_three_escapes_at_once(n: int)
    requires
        n >= 1,
    ensures
        escape_spec(3 * SCALE as int, 0, n) == Some(0int),
{
    assert(fp_mul(0, 0) == 0) by {
        vstd::arithmetic::div_mod::lemma_div_of0(SCALE as int);
    }
    assert(step_re(0, 0, 3 * SCALE as int) == 3 * SCALE as int);
    assert(step_im(0, 0, 0) == 0);
    assert(escaped(3 * SCALE as int, 0)) by (nonlinear_arith);
}

/// Runs the escape-time iteration on the point `c` with the given
/// budget: `Some(i)` when the orbit leaves the disk of radius 2 at step
/// `i`, `None` when it stays inside for the whole budget.
pub fn mandelbrot(c: Cplx, iterations: u32) -> (r: Option<u32>)
    requires
        c.in_range(),
    ensures
        opt_int(r) == escape_spec(c.re as int, c.im as int, iterations as int),
{
    let mut zr: i64 = 0;
    let mut zi: i64 = 0;
    let mut i: u32 = 0;
    proof {
        assert(0 * 0 + 0 * 0 <= escape_threshold()) by (nonlinear_arith);
    }
    while i < iterations
        invariant
            c.in_range(),
            0 <= i <= iterations,
            -2 * SCALE <= zr <= 2 * SCALE,
            -2 * SCALE <= zi <= 2 * SCALE,
            zr * zr + zi * zi <= escape_threshold(),
            escape_spec(c.re as int, c.im as int, iterations as int) == escape_from(
                zr as int,
                zi as int,
                c.re as int,
                c.im as int,
                i as int,
                iterations as int,
            ),
        decreases iterations - i,
    {
        proof {
            assert(0 <= zr * zr <= (4 * (SCALE as int)) * (SCALE as int) && 0 <= zi * zi <= (4 * (
            SCALE as int)) * (SCALE as int) && (-4 * (SCALE as int)) * (SCALE as int) <= zr * zi
                <= (4 * (SCALE as int)) * (SCALE as int)) by (nonlinear_arith)
                requires
                    -2 * (SCALE as int) <= zr <= 2 * (SCALE as int),
                    -2 * (SCALE as int) <= zi <= 2 * (SCALE as int),
            ;
        }
        let sq_re: i64 = zr * zr;
        let sq_im: i64 = zi * zi;
        let cross: i64 = zr * zi;
        let q_re: i64 = div_floor(sq_re, SCALE);
        let q_im: i64 = div_floor(sq_im, SCALE);
        let q_cross: i64 = div_floor(cross, SCALE);
        proof {
            lemma_div_bounds(sq_re as int, SCALE as int, 0, 4 * (SCALE as int));
            lemma_div_bounds(sq_im as int, SCALE as int, 0, 4 * (SCALE as int));
            lemma_div_bounds(cross as int, SCALE as int, -4 * (SCALE as int), 4 * (SCALE as int));
        }
        let new_re: i64 = q_re - q_im + c.re;
        let new_im: i64 = 2 * q_cross + c.im;
        proof {
            assert(new_re == step_re(zr as int, zi as int, c.re as int));
            assert(new_im == step_im(zr as int, zi as int, c.im as int));
        }
        let big: bool = new_re > 2 * SCALE || new_re < -2 * SCALE || new_im > 2 * SCALE || new_im
            < -2 * SCALE;
        if big {
            proof {
                assert(escaped(new_re as int, new_im as int)) by (nonlinear_arith)
                    requires
                        new_re > 2 * (SCALE as int) || new_re < -2 * (SCALE as int) || new_im > 2
                            * (SCALE as int) || new_im < -2 * (SCALE as int),
                ;
            }
            return Some(i);
        }
        proof {
            assert(0 <= new_re * new_re <= (4 * (SCALE as int)) * (SCALE as int) && 0 <= new_im
                * new_im <= (4 * (SCALE as int)) * (SCALE as int)) by (nonlinear_arith)
                requires
                    -2 * (SCALE as int) <= new_re as int <= 2 * (SCALE as int),
                    -2 * (SCALE as int) <= new_im as int <= 2 * (SCALE as int),
            ;
        }
        let n_re: i64 = new_re * new_re;
        let n_im: i64 = new_im * new_im;
        if n_re + n_im > 4 * SCALE * SCALE {
            return Some(i);
        }
        zr = new_re;
        zi = new_im;
        i = i + 1;
    }
    None
}

} // verus!
