use trikz::anchor::{anchor_circle, anchor_rectangle, polar_coordinates, Anchor, Shape, DEFAULT_RADIUS};
use trikz::scalar::{Scalar, Vector2, UNIT};

/// Pixels as a fixed-point scalar, rounded to the nearest millionth.
fn s(v: f64) -> Scalar {
    (v * UNIT as f64).round() as Scalar
}

/// Asserts that `a` lies within `tolerance` pixels of `(x, y)`.
fn near(a: Vector2, x: f64, y: f64, tolerance: f64) {
    let ax = a.x as f64 / UNIT as f64;
    let ay = a.y as f64 / UNIT as f64;
    assert!(
        (ax - x).abs() <= tolerance && (ay - y).abs() <= tolerance,
        "({}, {}) is not near ({}, {})",
        ax,
        ay,
        x,
        y
    );
}

fn v(x: f64, y: f64) -> Vector2 {
    Vector2::new(s(x), s(y))
}

#[test]
fn polar() {
    assert_eq!(polar_coordinates(s(2.0), s(0.0)), v(2.0, 0.0));
    assert_eq!(polar_coordinates(s(3.0), s(90.0)), v(0.0, 3.0));
    assert_eq!(polar_coordinates(s(2.0), s(180.0)), v(-2.0, 0.0));
    assert_eq!(polar_coordinates(s(3.0), s(-90.0)), v(0.0, -3.0));
}

#[test]
fn circle() {
    let radius = 10.0;
    let (sn, c) = (std::f64::consts::PI / 4.0).sin_cos();
    let yr = sn * radius;
    let xr = c * radius;
    let origin = Vector2::zeros();
    let r = s(radius);
    let tolerance = 1e-5;

    assert_eq!(anchor_circle(Anchor::Origin, origin, r), Vector2::zeros());
    assert_eq!(anchor_circle(Anchor::North, origin, r), v(0.0, -radius));
    near(anchor_circle(Anchor::NorthEast, origin, r), xr, -yr, tolerance);
    assert_eq!(anchor_circle(Anchor::East, origin, r), v(radius, 0.0));
    near(anchor_circle(Anchor::SouthEast, origin, r), xr, yr, tolerance);
    assert_eq!(anchor_circle(Anchor::South, origin, r), v(0.0, radius));
    near(anchor_circle(Anchor::SouthWest, origin, r), -xr, yr, tolerance);
    assert_eq!(anchor_circle(Anchor::West, origin, r), v(-radius, 0.0));
    near(anchor_circle(Anchor::NorthWest, origin, r), -xr, -yr, tolerance);
}

#[test]
fn rectangle() {
    let origin = Vector2::zeros();
    let half_width = s(4.0);
    let half_height = s(3.0);

    assert_eq!(anchor_rectangle(Anchor::Origin, origin, half_width, half_height), Vector2::zeros());
    assert_eq!(anchor_rectangle(Anchor::North, origin, half_width, half_height), v(0.0, -3.0));
    assert_eq!(anchor_rectangle(Anchor::NorthEast, origin, half_width, half_height), v(4.0, -3.0));
    assert_eq!(anchor_rectangle(Anchor::East, origin, half_width, half_height), v(4.0, 0.0));
    assert_eq!(anchor_rectangle(Anchor::SouthEast, origin, half_width, half_height), v(4.0, 3.0));
    assert_eq!(anchor_rectangle(Anchor::South, origin, half_width, half_height), v(0.0, 3.0));
    assert_eq!(anchor_rectangle(Anchor::SouthWest, origin, half_width, half_height), v(-4.0, 3.0));
    assert_eq!(anchor_rectangle(Anchor::West, origin, half_width, half_height), v(-4.0, 0.0));
    assert_eq!(anchor_rectangle(Anchor::NorthWest, origin, half_width, half_height), v(-4.0, -3.0));

    // sin(angle) = 3 / 5: the polar anchor at that angle and radius 5 is the
    // north-east corner
    let angle = -(3.0f64 / 5.0).asin() * 180.0 / std::f64::consts::PI;
    let anchor = Anchor::Polar { radius: s(5.0), angle: s(angle) };
    near(anchor_rectangle(anchor, origin, half_width, half_height), 4.0, -3.0, 1e-5);
}

#[test]
fn coordinate() {
    let coordinate = Shape::Point(Vector2::zeros());
    let shift = s(10.0);
    let shift_rad = 10.0 + DEFAULT_RADIUS as f64 / UNIT as f64;
    assert_eq!(coordinate.above(shift), v(0.0, -shift_rad));
    assert_eq!(coordinate.below(shift), v(0.0, shift_rad));
    assert_eq!(coordinate.left(shift), v(-shift_rad, 0.0));
    assert_eq!(coordinate.right(shift), v(shift_rad, 0.0));

    let (xshift, yshift) = (s(5.0), s(2.0));
    let ne = coordinate.northeast();
    assert_eq!(coordinate.above_right(xshift, yshift), Vector2::new(ne.x + xshift, ne.y - yshift));
    let (xshift, yshift) = (s(2.0), s(1.0));
    let nw = coordinate.northwest();
    assert_eq!(coordinate.above_left(xshift, yshift), Vector2::new(nw.x - xshift, nw.y - yshift));
    let (xshift, yshift) = (s(1.0), s(9.0));
    let sw = coordinate.southwest();
    assert_eq!(coordinate.below_left(xshift, yshift), Vector2::new(sw.x - xshift, sw.y + yshift));
    let (xshift, yshift) = (s(-9.0), s(4.0));
    let se = coordinate.southeast();
    assert_eq!(coordinate.below_right(xshift, yshift), Vector2::new(se.x + xshift, se.y + yshift));

    let anchor = Anchor::Polar { radius: 2 * DEFAULT_RADIUS, angle: s(135.0) };
    let sw = coordinate.southwest();
    let doubled = coordinate.anchor(anchor);
    assert!((doubled.x - 2 * sw.x).abs() <= 1 && (doubled.y - 2 * sw.y).abs() <= 1);
}

#[test]
fn origin_anchor_is_center() {
    let c = Shape::Circle { origin: v(3.0, -4.0), radius: s(2.0) };
    assert_eq!(c.anchor(Anchor::Origin), v(3.0, -4.0));
    let r = Shape::Rectangle { origin: v(-1.5, 2.0), width: s(4.0), height: s(6.0) };
    assert_eq!(r.anchor(Anchor::Origin), v(-1.5, 2.0));
    let l = Shape::Line { start: v(0.0, 0.0), end: v(10.0, 4.0) };
    assert_eq!(l.anchor(Anchor::Origin), v(5.0, 2.0));
    assert_eq!(Shape::Point(v(7.0, 8.0)).origin(), v(7.0, 8.0));
}

#[test]
fn circle_symmetry() {
    let c = Shape::Circle { origin: v(3.0, -4.0), radius: s(2.5) };
    let (n, so) = (c.north(), c.south());
    assert_eq!((n.x + so.x, n.y + so.y), (2 * s(3.0), 2 * s(-4.0)));
    let (e, w) = (c.east(), c.west());
    assert_eq!((e.x + w.x, e.y + w.y), (2 * s(3.0), 2 * s(-4.0)));
}

#[test]
fn rectangle_corner() {
    let r = Shape::Rectangle { origin: Vector2::zeros(), width: s(8.0), height: s(5.0) };
    assert_eq!(r.northeast(), v(4.0, -2.5));
    assert_eq!(r.southwest(), v(-4.0, 2.5));
}

#[test]
fn polar_matches_compass() {
    let c = Shape::Circle { origin: v(1.0, 1.0), radius: s(10.0) };
    let r = s(10.0);
    assert_eq!(c.anchor(Anchor::Polar { radius: r, angle: s(-45.0) }), c.northeast());
    assert_eq!(c.anchor(Anchor::Polar { radius: r, angle: s(45.0) }), c.southeast());
    assert_eq!(c.anchor(Anchor::Polar { radius: r, angle: s(135.0) }), c.southwest());
    assert_eq!(c.anchor(Anchor::Polar { radius: r, angle: s(-135.0) }), c.northwest());
    assert_eq!(c.anchor(Anchor::Polar { radius: r, angle: s(-90.0) }), c.north());
    assert_eq!(c.anchor(Anchor::Polar { radius: r, angle: s(270.0) }), c.north());
    near(c.northeast(), 1.0 + 10.0 * 0.5f64.sqrt(), 1.0 - 10.0 * 0.5f64.sqrt(), 1e-5);
}

#[test]
fn line_anchor() {
    let l = Shape::Line { start: v(10.0, -1.0), end: v(-5.0, 2.0) };
    assert_eq!(l.anchor(Anchor::Origin), v(2.5, 0.5));
    assert_eq!(l.anchor(Anchor::NorthEast), v(10.0, -1.0));
    assert_eq!(l.anchor(Anchor::SouthWest), v(-5.0, 2.0));
}
