use mandelbrot_view::color::paint;

#[test]
fn not_escaped_is_black() {
    assert_eq!(paint(None, 200), (0, 0, 0));
    assert_eq!(paint(None, 1), (0, 0, 0));
    assert_eq!(paint(None, 4_000_000_000), (0, 0, 0));
}

#[test]
fn immediate_escape_is_black_too() {
    // floor(255 * 0 / 200) = 0.
    assert_eq!(paint(Some(0), 200), (0, 0, 0));
}

#[test]
fn late_escape_is_nearly_white() {
    // floor(255 * 199 / 200) = 253, halved to 126 on the red channel.
    assert_eq!(paint(Some(199), 200), (126, 253, 253));
}

#[test]
fn gradient_midpoint() {
    // floor(255 * 100 / 200) = 127.
    assert_eq!(paint(Some(100), 200), (63, 127, 127));
}

#[test]
fn gradient_survives_large_counts() {
    // 255 * 20_000_000 overflows 32 bits; the quotient is still exact.
    assert_eq!(paint(Some(20_000_000), 40_000_000), (63, 127, 127));
}
