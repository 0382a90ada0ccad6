use mandelbrot_view::escape::mandelbrot;
use mandelbrot_view::plane::Cplx;

const SCALE: i64 = 1_000_000;

#[test]
fn origin_never_escapes() {
    for depth in [1u32, 10, 100, 1000] {
        assert_eq!(mandelbrot(Cplx::new(0, 0), depth), None);
    }
}

#[test]
fn three_escapes_at_step_zero() {
    for depth in [1u32, 2, 50, 500] {
        assert_eq!(mandelbrot(Cplx::new(3 * SCALE, 0), depth), Some(0));
    }
}

#[test]
fn two_escapes_at_step_one() {
    // z1 = 2 has squared norm exactly 4 (not an escape yet);
    // z2 = 4 + 2 = 6 escapes.
    assert_eq!(mandelbrot(Cplx::new(2 * SCALE, 0), 1), None);
    assert_eq!(mandelbrot(Cplx::new(2 * SCALE, 0), 2), Some(1));
}

#[test]
fn escape_index_stable_under_deeper_budget() {
    let c = Cplx::new(2 * SCALE, 0);
    let shallow = mandelbrot(c, 5);
    let deep = mandelbrot(c, 500);
    assert_eq!(shallow, Some(1));
    assert_eq!(deep, shallow);

    let edge = Cplx::new(SCALE / 4, SCALE / 2);
    if let Some(k) = mandelbrot(edge, 30) {
        assert_eq!(mandelbrot(edge, 1000), Some(k));
    }
}

#[test]
fn bounded_run_stays_bounded_under_smaller_budget() {
    // Inside the main cardioid: never escapes at depth 400, so not at 40.
    let c = Cplx::new(-SCALE / 4, 0);
    assert_eq!(mandelbrot(c, 400), None);
    assert_eq!(mandelbrot(c, 40), None);
}

#[test]
fn zero_budget_never_escapes() {
    assert_eq!(mandelbrot(Cplx::new(3 * SCALE, 0), 0), None);
}
