//! Decimal fixed-point arithmetic on `i64` raw values.
//!
//! A coordinate in the complex plane is stored as an `i64` counting
//! millionths: the raw value `r` stands for the real number `r / SCALE`.
//! Products are rounded toward negative infinity, so the spec-level
//! meaning of every executable operation is plain Euclidean arithmetic
//! on `int`.

use vstd::arithmetic::div_mod::{
    lemma_div_denominator, lemma_div_is_ordered, lemma_div_multiples_vanish, lemma_div_of0,
    lemma_div_pos_is_pos, lemma_fundamental_div_mod, lemma_fundamental_div_mod_converse,
};
use vstd::arithmetic::mul::{lemma_mul_inequality, lemma_mul_nonnegative};
use vstd::prelude::*;

verus! {

/// Number of raw units in 1.0: coordinates carry six decimal places.
pub const SCALE: i64 = 1_000_000;

/// 0.1 in raw units, the step factor of the zoom transforms.
pub const TENTH: i64 = 100_000;

/// The fixed-point product of two raw values: the mathematical product,
/// scaled back down with rounding toward negative infinity.
pub open spec fn fp_mul(a: int, b: int) -> int {
    (a * b) / (SCALE as int)
}

/// Floor division by a positive divisor.
///
/// Rust's `/` truncates toward zero, so negative dividends are handled
/// through unsigned magnitudes instead; the result is the Euclidean
/// quotient, which for a positive divisor is the floor.
pub fn div_floor(a: i64, b: i64) -> (q: i64)
    requires
        b > 0,
        a > i64::MIN,
    ensures
        q == a as int / b as int,
{
    if a >= 0 {
        let q: u64 = (a as u64) / (b as u64);
        proof {
            lemma_div_is_ordered(a as int, a as int, b as int);
            lemma_div_pos_is_pos(a as int, b as int);
        }
        q as i64
    } else {
        let na: u64 = (-a) as u64;
        let nb: u64 = b as u64;
        let d: u64 = (na - 1) / nb;
        let q: u64 = d + 1;
        proof {
            lemma_div_is_ordered((na - 1) as int, (na - 1) as int, nb as int);
            lemma_div_pos_is_pos((na - 1) as int, nb as int);
            lemma_fundamental_div_mod((na - 1) as int, nb as int);
            let dd = (na - 1) as int / nb as int;
            let r = (dd + 1) * nb - na;
            assert((dd + 1) * nb == dd * nb + nb) by (nonlinear_arith);
            assert(0 <= r < nb);
            assert(a == (-(dd + 1)) * nb + r) by (nonlinear_arith)
                requires
                    a == -(na as int),
                    r == (dd + 1) * nb - na,
            ;
            lemma_fundamental_div_mod_converse(a as int, nb as int, -(dd + 1), r);
        }
        -(q as i64)
    }
}

/// Scaling a proper fraction: for `0 <= p < q`, the floor of `p * s / q`
/// lies strictly below `s`.  This is why a relative pixel position never
/// reaches 1.0 and why the colour gradient never reaches 255.
pub proof fn lemma_scaled_ratio_bound(p: int, q: int, s: int)
    requires
        0 <= p < q,
        1 <= s,
    ensures
        0 <= (p * s) / q < s,
{
    lemma_mul_nonnegative(p, s);
    lemma_div_pos_is_pos(p * s, q);
    lemma_mul_inequality(p, q - 1, s);
    assert((q - 1) * s == q * s - s) by (nonlinear_arith);
    lemma_div_is_ordered(p * s, q * s - 1, q);
    assert(q * s - 1 == (s - 1) * q + (q - 1)) by (nonlinear_arith);
    lemma_fundamental_div_mod_converse(q * s - 1, q, s - 1, q - 1);
}

/// A fixed-point product of a fraction of one with a nonnegative value
/// stays within that value's span.
pub proof fn lemma_fp_mul_in_span(r: int, d: int)
    requires
        0 <= r <= SCALE,
        0 <= d,
    ensures
        0 <= fp_mul(r, d) <= d,
        r < SCALE && d > 0 ==> fp_mul(r, d) < d,
{
    if d == 0 {
        assert(r * 0 == 0) by (nonlinear_arith);
        lemma_div_of0(SCALE as int);
    } else if r == SCALE {
        assert(r * d == (SCALE as int) * d) by (nonlinear_arith)
            requires
                r == SCALE as int,
        ;
        lemma_div_multiples_vanish(d, SCALE as int);
    } else {
        lemma_scaled_ratio_bound(r, SCALE as int, d);
    }
}

/// Bounds on a dividend carry over to its Euclidean quotient.
pub proof fn lemma_div_bounds(a: int, b: int, lo: int, hi: int)
    requires
        b > 0,
        lo * b <= a <= hi * b,
    ensures
        lo <= a / b <= hi,
{
    lemma_div_is_ordered(lo * b, a, b);
    lemma_div_is_ordered(a, hi * b, b);
    assert(lo * b == b * lo && hi * b == b * hi) by (nonlinear_arith);
    lemma_div_multiples_vanish(lo, b);
    lemma_div_multiples_vanish(hi, b);
}

/// Multiplying by `TENTH` in fixed point is exact division by ten.
pub proof fn lemma_fp_tenth(d: int)
    requires
        0 <= d,
    ensures
        fp_mul(d, TENTH as int) == d / 10,
{
    lemma_mul_nonnegative(d, TENTH as int);
    assert(d * (TENTH as int) == (TENTH as int) * d) by (nonlinear_arith);
    lemma_div_multiples_vanish(d, TENTH as int);
    lemma_div_denominator(d * (TENTH as int), TENTH as int, 10);
}

/// Fixed-point multiplication on raw values; the caller bounds the
/// mathematical product so that it fits the machine word.
pub fn mul_fp(a: i64, b: i64) -> (r: i64)
    requires
        i64::MIN < a * b <= i64::MAX,
    ensures
        r == fp_mul(a as int, b as int),
{
    let p: i64 = a * b;
    div_floor(p, SCALE)
}

} // verus!
