//! The colour stage: an escape result becomes an RGB triple.
//!
//! A pixel that escaped at step `i` under depth `n` gets the gradient
//! value `c = floor(255 * i / n)` and the colour `(c / 2, c, c)`, a
//! green-white ramp that brightens with the escape count; a pixel that
//! never escaped is black.

use crate::escape::opt_int;
use crate::fixed::lemma_scaled_ratio_bound;
use vstd::prelude::*;

verus! {

/// The gradient byte of escape step `k` under depth `n`.
pub open spec fn gradient(k: int, n: int) -> int {
    (k * 255) / n
}

/// The RGB triple of an escape result under depth `n`.
pub open spec fn paint_spec(r: Option<int>, n: int) -> (int, int, int) {
    match r {
        Some(k) => {
            let c = gradient(k, n);
            (c / 2, c, c)
        },
        None => (0int, 0int, 0int),
    }
}

/// Maps an escape result to its RGB bytes under depth `iterations`.
pub fn paint(r: Option<u32>, iterations: u32) -> (rgb: (u8, u8, u8))
    requires
        iterations >= 1,
        r matches Some(k) ==> k < iterations,
    ensures
        (rgb.0 as int, rgb.1 as int, rgb.2 as int) == paint_spec(opt_int(r), iterations as int),
{
    match r {
        Some(k) => {
            proof {
                lemma_scaled_ratio_bound(k as int, iterations as int, 255);
            }
            let c: u64 = (k as u64) * 255 / (iterations as u64);
            let cb: u8 = c as u8;
            (cb / 2, cb, cb)
        },
        None => (0, 0, 0),
    }
}

} // verus!
