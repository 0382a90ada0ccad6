use mandelbrot_view::color::paint;
use mandelbrot_view::escape::mandelbrot;
use mandelbrot_view::frame::render_frame;
use mandelbrot_view::plane::{x_y_to_complex, Viewport};

#[test]
fn four_by_four_frame_matches_per_pixel_pipeline() {
    let v = Viewport::initial();
    let depth = 50u32;
    let (w, h) = (4u32, 4u32);
    let buf = render_frame(w, h, &v, depth);
    assert_eq!(buf.len(), (w * h * 3) as usize);
    for y in 0..h {
        for x in 0..w {
            let c = x_y_to_complex(x, y, w, h, &v);
            let rgb = paint(mandelbrot(c, depth), depth);
            let i = ((y * w + x) * 3) as usize;
            assert_eq!((buf[i], buf[i + 1], buf[i + 2]), rgb, "pixel ({x}, {y})");
        }
    }
}

#[test]
fn frame_has_both_inside_and_escaped_pixels() {
    let v = Viewport::initial();
    let buf = render_frame(4, 4, &v, 50);
    // The corner pixel maps to -2 - 1.5i, which escapes at once: black.
    assert_eq!(&buf[0..3], &[0, 0, 0]);
    // Pixel (3, 0) maps to 1 - 1.5i, which escapes at step 1:
    // floor(255 / 50) = 5, so the colour is (2, 5, 5).
    let i = 3 * 3;
    assert_eq!(&buf[i..i + 3], &[2, 5, 5]);
}

#[test]
fn wider_window_keeps_row_major_layout() {
    let v = Viewport::initial();
    let depth = 30u32;
    let (w, h) = (6u32, 3u32);
    let buf = render_frame(w, h, &v, depth);
    assert_eq!(buf.len(), (w * h * 3) as usize);
    for y in 0..h {
        for x in 0..w {
            let c = x_y_to_complex(x, y, w, h, &v);
            let rgb = paint(mandelbrot(c, depth), depth);
            let i = ((y * w + x) * 3) as usize;
            assert_eq!((buf[i], buf[i + 1], buf[i + 2]), rgb);
        }
    }
}
