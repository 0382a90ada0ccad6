//! The frame compute stage: every pixel of the window, in parallel.
//!
//! A frame is computed in three steps: the full pixel grid is laid out
//! in row-major order, the escape-time evaluator runs over it in
//! parallel (each pixel independent, reading only the shared viewport
//! and depth), and the colour stage turns the results into one RGB byte
//! buffer.  The buffer contract pins every byte to the composition of
//! the three verified stages.

use crate::color::{paint, paint_spec};
use crate::escape::{escape_spec, lemma_escape_from_range, mandelbrot, opt_int};
use crate::plane::{map_im, map_re, x_y_to_complex, Cplx, Viewport};
use itertools::Itertools;
use rayon::iter::{IndexedParallelIterator, IntoParallelRefIterator, ParallelIterator};
use vstd::arithmetic::div_mod::{
    lemma_div_pos_is_pos, lemma_fundamental_div_mod, lemma_mod_division_less_than_divisor,
};
use vstd::prelude::*;

verus! {

/// The escape result of one pixel, by its coordinates within the
/// window.
pub open spec fn pixel_escape_spec(x: int, y: int, w: int, h: int, v: Viewport, n: int) -> Option<
    int,
> {
    escape_spec(map_re(x, w, v), map_im(y, h, v), n)
}

/// The colour of the pixel with row-major index `i`.
pub open spec fn pixel_color_spec(i: int, w: int, h: int, v: Viewport, n: int) -> (int, int, int) {
    paint_spec(pixel_escape_spec(i % w, i / w, w, h, v, n), n)
}

/// Evaluates one pixel: maps it into the plane and runs the escape-time
/// iteration.
pub fn pixel_escape(x: u32, y: u32, w: u32, h: u32, v: &Viewport, iterations: u32) -> (r: Option<
    u32,
>)
    requires
        v.wf(),
        x < w,
        y < h,
    ensures
        opt_int(r) == pixel_escape_spec(x as int, y as int, w as int, h as int, *v,
            iterations as int),
{
    let c: Cplx = x_y_to_complex(x, y, w, h, v);
    mandelbrot(c, iterations)
}

/// Relies on itertools' `Itertools::cartesian_product`: the product of
/// two ranges is yielded in row-major order, the second range varying
/// fastest, so entry `i` is the pair `(i / w, i % w)`.
#[verifier::external_body]
fn pixel_grid(w: u32, h: u32) -> (r: Vec<(u32, u32)>)
    requires
        w >= 1,
        h >= 1,
        (w as int) * (h as int) <= usize::MAX as int,
    ensures
        r@.len() == (w as int) * (h as int),
        forall|i: int|
            0 <= i < r@.len() ==> (#[trigger] r@[i]).0 == i / (w as int) && r@[i].1 == i % (
            w as int),
{
    (0..h).cartesian_product(0..w).collect()
}

/// Relies on rayon: `par_iter().map(..)` over a slice is an indexed
/// parallel iterator, and `collect_into_vec` places each closure result
/// at the index of its argument; the closure itself only calls the
/// verified per-pixel evaluator.
#[verifier::external_body]
fn compute_escapes(coords: &Vec<(u32, u32)>, w: u32, h: u32, v: &Viewport, iterations: u32) -> (r:
    Vec<Option<u32>>)
    requires
        v.wf(),
        forall|i: int|
            0 <= i < coords@.len() ==> (#[trigger] coords@[i]).0 < h && coords@[i].1 < w,
    ensures
        r@.len() == coords@.len(),
        forall|i: int|
            0 <= i < coords@.len() ==> opt_int(#[trigger] r@[i]) == pixel_escape_spec(
                coords@[i].1 as int,
                coords@[i].0 as int,
                w as int,
                h as int,
                *v,
                iterations as int,
            ),
{
    let mut out: Vec<Option<u32>> = Vec::new();
    coords.par_iter().map(|yx: &(u32, u32)| pixel_escape(yx.1, yx.0, w, h, v, iterations))
        .collect_into_vec(&mut out);
    out
}

/// Renders one frame: the row-major RGB byte buffer of the whole
/// window, three bytes per pixel, each pixel coloured by its escape
/// result under the current viewport and depth.
pub fn render_frame(w: u32, h: u32, v: &Viewport, iterations: u32) -> (buf: Vec<u8>)
    requires
        v.wf(),
        w >= 1,
        h >= 1,
        iterations >= 1,
        (w as int) * (h as int) * 3 <= usize::MAX as int,
    ensures
        buf@.len() == (w as int) * (h as int) * 3,
        forall|i: int|
            0 <= i < (w as int) * (h as int) ==> {
                let rgb = #[trigger] pixel_color_spec(i, w as int, h as int, *v, iterations as int);
                &&& buf@[3 * i] == rgb.0
                &&& buf@[3 * i + 1] == rgb.1
                &&& buf@[3 * i + 2] == rgb.2
            },
{
    proof {
        assert((w as int) * (h as int) <= (w as int) * (h as int) * 3 && 0 <= (w as int) * (
        h as int)) by (nonlinear_arith)
            requires
                w >= 1,
                h >= 1,
        ;
    }
    let coords: Vec<(u32, u32)> = pixel_grid(w, h);
    proof {
        assert forall|i: int| 0 <= i < coords@.len() implies (#[trigger] coords@[i]).0 < (h as int)
            && coords@[i].1 < (w as int) by {
            lemma_fundamental_div_mod(i, w as int);
            lemma_mod_division_less_than_divisor(i, w as int);
            lemma_div_pos_is_pos(i, w as int);
            assert(i / (w as int) < h as int) by (nonlinear_arith)
                requires
                    i < (w as int) * (h as int),
                    w >= 1,
                    i == (w as int) * (i / (w as int)) + i % (w as int),
                    0 <= i % (w as int),
                    0 <= i / (w as int),
            ;
        }
    }
    let results: Vec<Option<u32>> = compute_escapes(&coords, w, h, v, iterations);
    let n: usize = results.len();
    let mut buf: Vec<u8> = Vec::new();
    let mut i: usize = 0;
    while i < n
        invariant
            v.wf(),
            iterations >= 1,
            w >= 1,
            h >= 1,
            n == (w as int) * (h as int),
            (w as int) * (h as int) * 3 <= usize::MAX as int,
            results@.len() == n,
            coords@.len() == n,
            forall|j: int|
                0 <= j < n ==> (#[trigger] coords@[j]).0 == j / (w as int) && coords@[j].1 == j % (
                w as int),
            forall|j: int|
                0 <= j < n ==> opt_int(#[trigger] results@[j]) == pixel_escape_spec(
                    coords@[j].1 as int,
                    coords@[j].0 as int,
                    w as int,
                    h as int,
                    *v,
                    iterations as int,
                ),
            0 <= i <= n,
            buf@.len() == 3 * i,
            forall|j: int|
                0 <= j < i ==> {
                    let rgb = #[trigger] pixel_color_spec(
                        j,
                        w as int,
                        h as int,
                        *v,
                        iterations as int,
                    );
                    &&& buf@[3 * j] == rgb.0
                    &&& buf@[3 * j + 1] == rgb.1
                    &&& buf@[3 * j + 2] == rgb.2
                },
        decreases n - i,
    {
        proof {
            assert(3 * (i as int) + 3 <= (w as int) * (h as int) * 3) by (nonlinear_arith)
                requires
                    (i as int) < (w as int) * (h as int),
            ;
            if results@[i as int] is Some {
                lemma_escape_from_range(
                    0,
                    0,
                    map_re((i as int) % (w as int), w as int, *v),
                    map_im((i as int) / (w as int), h as int, *v),
                    0,
                    iterations as int,
                    results@[i as int]->Some_0 as int,
                );
            }
        }
        let rgb: (u8, u8, u8) = paint(results[i], iterations);
        buf.push(rgb.0);
        buf.push(rgb.1);
        buf.push(rgb.2);
        i = i + 1;
    }
    buf
}

} // verus!
