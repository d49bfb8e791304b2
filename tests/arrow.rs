use trikz::arrow::{arrow_end_correction, elbow_arrow, isqrt, straight_arrow, trim_endpoint, ARROW_SHIFT};
use trikz::path::Segment;
use trikz::scalar::{Scalar, Vector2, UNIT};

fn s(v: f64) -> Scalar {
    (v * UNIT as f64).round() as Scalar
}

fn v(x: f64, y: f64) -> Vector2 {
    Vector2::new(s(x), s(y))
}

fn near(a: Vector2, b: Vector2, units: i64) {
    assert!((a.x - b.x).abs() <= units && (a.y - b.y).abs() <= units, "{:?} is not near {:?}", a, b);
}

#[test]
fn arrow_end() {
    let len = 100.0;
    let shift = ARROW_SHIFT as f64 / UNIT as f64;
    let start = Vector2::zeros();

    assert_eq!(arrow_end_correction(start, v(len, 0.0)), v(len - shift, 0.0));
    assert_eq!(arrow_end_correction(start, v(-len, 0.0)), v(-(len - shift), 0.0));
    assert_eq!(arrow_end_correction(start, v(0.0, len)), v(0.0, len - shift));
    assert_eq!(arrow_end_correction(start, v(0.0, -len)), v(0.0, -(len - shift)));

    // -30 degrees
    let coeff = 3.0f64.sqrt() / 2.0;
    let len = 2.0 * shift;
    let end = v(coeff * len, -len / 2.0);
    near(arrow_end_correction(start, end), Vector2::new(end.x / 2, end.y / 2), 2);

    let start = v(-50.0, -50.0);
    let end = v(50.0, 50.0);
    let coeff = 2.0f64.sqrt() / 2.0;
    near(arrow_end_correction(start, end), v(50.0 - shift * coeff, 50.0 - shift * coeff), 2);
}

#[test]
fn trim_concrete() {
    assert_eq!(trim_endpoint(v(0.0, 0.0), v(100.0, 0.0), s(7.5)), v(92.5, 0.0));
}

#[test]
fn trim_zero_length_returns_end() {
    let p = v(12.0, -3.5);
    assert_eq!(trim_endpoint(p, p, s(7.5)), p);
    assert_eq!(trim_endpoint(p, p, 0), p);
}

#[test]
fn trim_shift_beyond_length_stops_at_start() {
    let start = v(1.0, 1.0);
    assert_eq!(trim_endpoint(start, v(4.0, 5.0), s(5.0)), start);
    assert_eq!(trim_endpoint(start, v(4.0, 5.0), s(9.0)), start);
}

#[test]
fn trim_keeps_distance() {
    // a 3-4-5 triangle: the length is exact
    let start = v(1.0, 2.0);
    let end = v(7.0, 10.0);
    let r = trim_endpoint(start, end, s(2.5));
    assert_eq!(r, v(5.5, 8.0));
    let (dx, dy) = ((r.x - start.x) as f64, (r.y - start.y) as f64);
    assert!(((dx * dx + dy * dy).sqrt() - s(7.5) as f64).abs() <= 1.0);
}

#[test]
fn integer_square_root() {
    assert_eq!(isqrt(0), 0);
    assert_eq!(isqrt(1), 1);
    assert_eq!(isqrt(15), 3);
    assert_eq!(isqrt(16), 4);
    assert_eq!(isqrt(10_000_000_000_000_000), 100_000_000);
}

#[test]
fn straight_arrow_path() {
    let path = straight_arrow(Vector2::zeros(), v(0.0, 50.0));
    assert_eq!(path.segments(), &[Segment::MoveTo(Vector2::zeros()), Segment::LineTo(v(0.0, 42.5))]);
}

#[test]
fn elbow_arrow_path() {
    let path = elbow_arrow(v(0.0, 0.0), v(100.0, 50.0), s(20.0));
    assert_eq!(
        path.segments(),
        &[
            Segment::MoveTo(v(0.0, 0.0)),
            Segment::VerticalLine(s(20.0)),
            Segment::LineTo(v(100.0, 20.0)),
            Segment::LineTo(v(100.0, 42.5)),
        ]
    );
    assert_eq!(path.cursor(3), v(100.0, 42.5));
}
