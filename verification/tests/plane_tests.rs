use mandelbrot_view::plane::{x_y_to_complex, Cplx, Viewport};

const SCALE: i64 = 1_000_000;

#[test]
fn initial_viewport_corners() {
    let v = Viewport::initial();
    assert_eq!(v.top_left, Cplx::new(-2 * SCALE, -(3 * SCALE) / 2));
    assert_eq!(v.bottom_right, Cplx::new(2 * SCALE, (3 * SCALE) / 2));
}

#[test]
fn pixel_origin_maps_to_top_left() {
    let v = Viewport::initial();
    let c = x_y_to_complex(0, 0, 800, 600, &v);
    assert_eq!(c, v.top_left);
}

#[test]
fn window_center_maps_to_viewport_center() {
    let v = Viewport::initial();
    let c = x_y_to_complex(2, 2, 4, 4, &v);
    assert_eq!(c, Cplx::new(0, 0));
}

#[test]
fn mapped_points_stay_inside_viewport() {
    let v = Viewport::initial();
    let (w, h) = (7u32, 5u32);
    for y in 0..h {
        for x in 0..w {
            let c = x_y_to_complex(x, y, w, h, &v);
            assert!(v.top_left.re <= c.re && c.re < v.bottom_right.re);
            assert!(v.top_left.im <= c.im && c.im < v.bottom_right.im);
        }
    }
}

#[test]
fn quarter_pixel_interpolates_linearly() {
    let v = Viewport::initial();
    // x = 1 of 4 is a quarter across a span of 4: -2 + 1 = -1.
    let c = x_y_to_complex(1, 1, 4, 4, &v);
    assert_eq!(c.re, -SCALE);
    // a quarter across the imaginary span of 3: -1.5 + 0.75 = -0.75.
    assert_eq!(c.im, -750_000);
}
