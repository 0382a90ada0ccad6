use mandelbrot_view::control::{zoom_in, zoom_out, Input, ViewState};
use mandelbrot_view::plane::{Cplx, Viewport};

#[test]
fn zoom_out_expands_ten_percent_each_way() {
    let v = Viewport::initial();
    let v2 = zoom_out(&v);
    assert_eq!(v2.top_left, Cplx::new(-2_400_000, -1_800_000));
    assert_eq!(v2.bottom_right, Cplx::new(2_400_000, 1_800_000));
}

#[test]
fn zoom_in_at_center_shrinks_symmetrically() {
    let v = Viewport::initial();
    // Pixel (2, 2) of a 4x4 window maps exactly to the viewport center,
    // so the relative click position is one half on both axes.
    let v2 = zoom_in(&v, 2, 2, 4, 4);
    assert_eq!(v2.top_left, Cplx::new(-1_800_000, -1_350_000));
    assert_eq!(v2.bottom_right, Cplx::new(1_800_000, 1_350_000));
}

#[test]
fn zoom_in_biases_toward_click() {
    let v = Viewport::initial();
    // A click on the left edge keeps the left corner and pulls in the
    // right one by the full tenth of the span.
    let v2 = zoom_in(&v, 0, 0, 4, 4);
    assert_eq!(v2.top_left, v.top_left);
    assert_eq!(v2.bottom_right, Cplx::new(1_600_000, 1_200_000));
}

#[test]
fn depth_lowers_to_floor_and_stays() {
    let s = ViewState::initial();
    assert_eq!(s.iterations, 200);
    let s1 = s.step(Input::LowerDepth, 800, 600);
    assert_eq!(s1.state.iterations, 100);
    assert!(s1.render);
    let s2 = s1.state.step(Input::LowerDepth, 800, 600);
    assert_eq!(s2.state.iterations, 100);
    assert!(!s2.render);
    let s3 = s2.state.step(Input::LowerDepth, 800, 600);
    assert_eq!(s3.state.iterations, 100);
}

#[test]
fn depth_raises_by_step() {
    let s = ViewState::initial();
    let s1 = s.step(Input::RaiseDepth, 800, 600);
    assert_eq!(s1.state.iterations, 300);
    assert!(s1.render);
    assert!(!s1.quit);
}

#[test]
fn quit_stops_without_render() {
    let s = ViewState::initial();
    let r = s.step(Input::Quit, 800, 600);
    assert!(r.quit);
    assert!(!r.render);
    assert_eq!(r.state, s);
}

#[test]
fn zoom_events_change_viewport_and_render() {
    let s = ViewState::initial();
    let r = s.step(Input::ZoomOut, 800, 600);
    assert!(r.render);
    assert_eq!(r.state.viewport.top_left, Cplx::new(-2_400_000, -1_800_000));
    assert_eq!(r.state.iterations, 200);

    let r2 = s.step(Input::ZoomIn(400, 300), 800, 600);
    assert!(r2.render);
    assert_eq!(r2.state.viewport.top_left, Cplx::new(-1_800_000, -1_350_000));
    assert_eq!(r2.state.viewport.bottom_right, Cplx::new(1_800_000, 1_350_000));
}

#[test]
fn repeated_zoom_in_converges_on_click_region() {
    let mut s = ViewState::initial();
    for _ in 0..8 {
        let r = s.step(Input::ZoomIn(200, 150), 800, 600);
        s = r.state;
        assert!(s.viewport.top_left.re < s.viewport.bottom_right.re);
        assert!(s.viewport.top_left.im < s.viewport.bottom_right.im);
    }
    // The span shrank by about 10% per click.
    let d = s.viewport.bottom_right.re - s.viewport.top_left.re;
    assert!(d < 2_000_000);
}

#[test]
fn zoom_out_refused_at_coordinate_limit() {
    // Corners already at the admissible bound: widening would leave it,
    // so the viewport stays as it is.
    let v = Viewport {
        top_left: Cplx::new(-1_000_000_000_000, -1_000_000_000_000),
        bottom_right: Cplx::new(1_000_000_000_000, 1_000_000_000_000),
    };
    assert_eq!(zoom_out(&v), v);
}

#[test]
fn depth_raise_refused_at_machine_cap() {
    let s = ViewState { viewport: Viewport::initial(), iterations: 4_294_967_200 };
    let r = s.step(Input::RaiseDepth, 800, 600);
    assert_eq!(r.state.iterations, 4_294_967_200);
}
