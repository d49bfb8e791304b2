//! Anchors: named or polar attachment points on shapes.
//!
//! Positive `x` points right (east) and positive `y` points down (south), for
//! every shape and every helper; north is therefore towards smaller `y`.

use vstd::prelude::*;
use vstd::math::abs;
use crate::path::{point_of, Point};
use crate::scalar::{
    div_toward_zero, half, in_range, lemma_mul_div_cancel, lemma_mul_div_shrinks, mul_div,
    mul_div_spec, Scalar, Vector2, LIMIT, UNIT,
};
use crate::trig::{direction, unit_direction};

verus! {

/// The radius that a bare point is given when it is anchored as a circle.
pub const DEFAULT_RADIUS: Scalar = 5_000_000;

/// An attachment point: the center, a compass direction, or a polar offset
/// from the center (`angle` in millionths of a degree, clockwise on screen
/// from east, since `y` grows downward).
#[derive(Clone, Copy, Debug, PartialEq, Eq, Structural)]
pub enum Anchor {
    Origin,
    North,
    NorthEast,
    East,
    SouthEast,
    South,
    SouthWest,
    West,
    NorthWest,
    Polar { radius: Scalar, angle: Scalar },
}

impl Anchor {
    pub open spec fn in_range(&self) -> bool {
        match *self {
            Anchor::Polar { radius, angle } => in_range(radius as int) && in_range(angle as int),
            _ => true,
        }
    }
}

/// The fixed angle of each compass direction on a circle, in millionths of a
/// degree (north is a quarter turn counter-clockwise from east).
pub open spec fn compass_angle(a: Anchor) -> int {
    match a {
        Anchor::North => -90_000_000,
        Anchor::NorthEast => -45_000_000,
        Anchor::East => 0,
        Anchor::SouthEast => 45_000_000,
        Anchor::South => 90_000_000,
        Anchor::SouthWest => 135_000_000,
        Anchor::West => 180_000_000,
        Anchor::NorthWest => -135_000_000,
        _ => 0,
    }
}

pub open spec fn is_compass(a: Anchor) -> bool {
    !(a is Origin) && !(a is Polar)
}

/// The offset `radius (cos angle, sin angle)`, each coordinate rounded toward
/// zero.
pub open spec fn polar_offset(radius: int, angle: int) -> Point {
    let d = unit_direction(angle);
    (mul_div_spec(radius, d.0, UNIT as int), mul_div_spec(radius, d.1, UNIT as int))
}

/// The anchor of a circle around `origin`.
pub open spec fn circle_anchor(a: Anchor, origin: Point, radius: int) -> Point {
    match a {
        Anchor::Origin => origin,
        Anchor::Polar { radius: r, angle } => {
            let o = polar_offset(r as int, angle as int);
            (origin.0 + o.0, origin.1 + o.1)
        },
        _ => {
            let o = polar_offset(radius, compass_angle(a));
            (origin.0 + o.0, origin.1 + o.1)
        },
    }
}

/// The compass offset of a box with the given half extents.
pub open spec fn box_offset(a: Anchor, hw: int, hh: int) -> Point {
    match a {
        Anchor::North => (0, -hh),
        Anchor::NorthEast => (hw, -hh),
        Anchor::East => (hw, 0),
        Anchor::SouthEast => (hw, hh),
        Anchor::South => (0, hh),
        Anchor::SouthWest => (-hw, hh),
        Anchor::West => (-hw, 0),
        Anchor::NorthWest => (-hw, -hh),
        Anchor::Polar { radius, angle } => polar_offset(radius as int, angle as int),
        Anchor::Origin => (0, 0),
    }
}

/// The anchor of an axis-aligned rectangle centered on `origin`. A polar
/// anchor is a true polar offset from the center, and may lie outside the
/// rectangle.
pub open spec fn rectangle_anchor(a: Anchor, origin: Point, hw: int, hh: int) -> Point {
    let o = box_offset(a, hw, hh);
    (origin.0 + o.0, origin.1 + o.1)
}

/// An anchor lies within three times the accepted range, so that a shift
/// within range can still be added to it.
pub open spec fn within_reach(v: Vector2) -> bool {
    -3 * LIMIT <= v.x <= 3 * LIMIT && -3 * LIMIT <= v.y <= 3 * LIMIT
}

/// The offset `radius (cos angle, sin angle)`, `angle` in millionths of a
/// degree.
pub fn polar_coordinates(radius: Scalar, angle: Scalar) -> (r: Vector2)
    requires
        in_range(radius as int),
        in_range(angle as int),
    ensures
        point_of(r) == polar_offset(radius as int, angle as int),
        -LIMIT <= r.x <= LIMIT,
        -LIMIT <= r.y <= LIMIT,
{
    let (c, s) = direction(angle);
    proof {
        lemma_mul_div_shrinks(radius as int, c as int, UNIT as int);
        lemma_mul_div_shrinks(radius as int, s as int, UNIT as int);
    }
    Vector2::new(mul_div(radius, c, UNIT), mul_div(radius, s, UNIT))
}

fn compass_angle_of(a: Anchor) -> (r: Scalar)
    ensures
        r == compass_angle(a),
{
    match a {
        Anchor::North => -90_000_000,
        Anchor::NorthEast => -45_000_000,
        Anchor::East => 0,
        Anchor::SouthEast => 45_000_000,
        Anchor::South => 90_000_000,
        Anchor::SouthWest => 135_000_000,
        Anchor::West => 180_000_000,
        Anchor::NorthWest => -135_000_000,
        _ => 0,
    }
}

/// The anchor `a` of the circle of `radius` around `origin`. Compass
/// directions are polar offsets at their fixed angles.
pub fn anchor_circle(a: Anchor, origin: Vector2, radius: Scalar) -> (r: Vector2)
    requires
        a.in_range(),
        origin.in_range(),
        in_range(radius as int),
    ensures
        point_of(r) == circle_anchor(a, point_of(origin), radius as int),
        within_reach(r),
{
    let offset = match a {
        Anchor::Origin => return origin,
        Anchor::Polar { radius, angle } => polar_coordinates(radius, angle),
        _ => polar_coordinates(radius, compass_angle_of(a)),
    };
    Vector2::new(origin.x + offset.x, origin.y + offset.y)
}

/// The anchor `a` of the rectangle centered on `origin` with half extents
/// `half_width` and `half_height`.
pub fn anchor_rectangle(a: Anchor, origin: Vector2, half_width: Scalar, half_height: Scalar) -> (r: Vector2)
    requires
        a.in_range(),
        origin.in_range(),
        -2 * LIMIT <= half_width <= 2 * LIMIT,
        -2 * LIMIT <= half_height <= 2 * LIMIT,
    ensures
        point_of(r) == rectangle_anchor(a, point_of(origin), half_width as int, half_height as int),
        within_reach(r),
{
    let offset = match a {
        Anchor::Origin => Vector2::zeros(),
        Anchor::North => Vector2::new(0, -half_height),
        Anchor::NorthEast => Vector2::new(half_width, -half_height),
        Anchor::East => Vector2::new(half_width, 0),
        Anchor::SouthEast => Vector2::new(half_width, half_height),
        Anchor::South => Vector2::new(0, half_height),
        Anchor::SouthWest => Vector2::new(-half_width, half_height),
        Anchor::West => Vector2::new(-half_width, 0),
        Anchor::NorthWest => Vector2::new(-half_width, -half_height),
        Anchor::Polar { radius, angle } => polar_coordinates(radius, angle),
    };
    Vector2::new(origin.x + offset.x, origin.y + offset.y)
}

/// The geometry of a shape, as far as anchors need it.
#[derive(Clone, Copy, Debug, PartialEq, Eq, Structural)]
pub enum Shape {
    /// A bare point, anchored as a circle of [`DEFAULT_RADIUS`].
    Point(Vector2),
    Circle { origin: Vector2, radius: Scalar },
    /// A rectangle given by its center and its full extents.
    Rectangle { origin: Vector2, width: Scalar, height: Scalar },
    /// A line segment, anchored as the box it spans.
    Line { start: Vector2, end: Vector2 },
}

impl Shape {
    pub open spec fn in_range(&self) -> bool {
        match *self {
            Shape::Point(o) => o.in_range(),
            Shape::Circle { origin, radius } => origin.in_range() && in_range(radius as int),
            Shape::Rectangle { origin, width, height } => origin.in_range() && in_range(width as int)
                && in_range(height as int),
            Shape::Line { start, end } => start.in_range() && end.in_range(),
        }
    }

    /// The center, or reference point, of the shape.
    pub open spec fn center(&self) -> Point {
        match *self {
            Shape::Point(o) => point_of(o),
            Shape::Circle { origin, .. } => point_of(origin),
            Shape::Rectangle { origin, .. } => point_of(origin),
            Shape::Line { start, end } => (
                div_toward_zero(start.x + end.x, 2),
                div_toward_zero(start.y + end.y, 2),
            ),
        }
    }

    /// The point that `anchor(a)` returns.
    pub open spec fn anchor_spec(&self, a: Anchor) -> Point {
        match *self {
            Shape::Point(o) => circle_anchor(a, point_of(o), DEFAULT_RADIUS as int),
            Shape::Circle { origin, radius } => circle_anchor(a, point_of(origin), radius as int),
            Shape::Rectangle { origin, width, height } => rectangle_anchor(
                a,
                point_of(origin),
                div_toward_zero(width as int, 2),
                div_toward_zero(height as int, 2),
            ),
            Shape::Line { start, .. } => {
                let m = self.center();
                rectangle_anchor(a, m, abs(start.x - m.0) as int, abs(start.y - m.1) as int)
            },
        }
    }

    /// The anchor `a` of the shape.
    pub fn anchor(&self, a: Anchor) -> (r: Vector2)
        requires
            self.in_range(),
            a.in_range(),
        ensures
            point_of(r) == self.anchor_spec(a),
            within_reach(r),
    {
        match *self {
            Shape::Point(o) => anchor_circle(a, o, DEFAULT_RADIUS),
            Shape::Circle { origin, radius } => anchor_circle(a, origin, radius),
            Shape::Rectangle { origin, width, height } => anchor_rectangle(
                a,
                origin,
                half(width),
                half(height),
            ),
            Shape::Line { start, end } => {
                let mid = Vector2::new(half(start.x + end.x), half(start.y + end.y));
                let hw = if start.x >= mid.x { start.x - mid.x } else { mid.x - start.x };
                let hh = if start.y >= mid.y { start.y - mid.y } else { mid.y - start.y };
                anchor_rectangle(a, mid, hw, hh)
            },
        }
    }

    pub fn origin(&self) -> (r: Vector2)
        requires
            self.in_range(),
        ensures
            within_reach(r),
            point_of(r) == self.anchor_spec(Anchor::Origin),
    {
        self.anchor(Anchor::Origin)
    }

    pub fn north(&self) -> (r: Vector2)
        requires
            self.in_range(),
        ensures
            within_reach(r),
            point_of(r) == self.anchor_spec(Anchor::North),
    {
        self.anchor(Anchor::North)
    }

    pub fn northeast(&self) -> (r: Vector2)
        requires
            self.in_range(),
        ensures
            within_reach(r),
            point_of(r) == self.anchor_spec(Anchor::NorthEast),
    {
        self.anchor(Anchor::NorthEast)
    }

    pub fn east(&self) -> (r: Vector2)
        requires
            self.in_range(),
        ensures
            within_reach(r),
            point_of(r) == self.anchor_spec(Anchor::East),
    {
        self.anchor(Anchor::East)
    }

    pub fn southeast(&self) -> (r: Vector2)
        requires
            self.in_range(),
        ensures
            within_reach(r),
            point_of(r) == self.anchor_spec(Anchor::SouthEast),
    {
        self.anchor(Anchor::SouthEast)
    }

    pub fn south(&self) -> (r: Vector2)
        requires
            self.in_range(),
        ensures
            within_reach(r),
            point_of(r) == self.anchor_spec(Anchor::South),
    {
        self.anchor(Anchor::South)
    }

    pub fn southwest(&self) -> (r: Vector2)
        requires
            self.in_range(),
        ensures
            within_reach(r),
            point_of(r) == self.anchor_spec(Anchor::SouthWest),
    {
        self.anchor(Anchor::SouthWest)
    }

    pub fn west(&self) -> (r: Vector2)
        requires
            self.in_range(),
        ensures
            within_reach(r),
            point_of(r) == self.anchor_spec(Anchor::West),
    {
        self.anchor(Anchor::West)
    }

    pub fn northwest(&self) -> (r: Vector2)
        requires
            self.in_range(),
        ensures
            within_reach(r),
            point_of(r) == self.anchor_spec(Anchor::NorthWest),
    {
        self.anchor(Anchor::NorthWest)
    }

    /// The point `yshift` above the north anchor.
    pub fn above(&self, yshift: Scalar) -> (r: Vector2)
        requires
            self.in_range(),
            in_range(yshift as int),
        ensures
            point_of(r) == ({
                let n = self.anchor_spec(Anchor::North);
                (n.0, n.1 - yshift)
            }),
    {
        let n = self.north();
        Vector2::new(n.x, n.y - yshift)
    }

    /// The point `yshift` below the south anchor.
    pub fn below(&self, yshift: Scalar) -> (r: Vector2)
        requires
            self.in_range(),
            in_range(yshift as int),
        ensures
            point_of(r) == ({
                let n = self.anchor_spec(Anchor::South);
                (n.0, n.1 + yshift)
            }),
    {
        let n = self.south();
        Vector2::new(n.x, n.y + yshift)
    }

    /// The point `xshift` left of the west anchor.
    pub fn left(&self, xshift: Scalar) -> (r: Vector2)
        requires
            self.in_range(),
            in_range(xshift as int),
        ensures
            point_of(r) == ({
                let n = self.anchor_spec(Anchor::West);
                (n.0 - xshift, n.1)
            }),
    {
        let n = self.west();
        Vector2::new(n.x - xshift, n.y)
    }

    /// The point `xshift` right of the east anchor.
    pub fn right(&self, xshift: Scalar) -> (r: Vector2)
        requires
            self.in_range(),
            in_range(xshift as int),
        ensures
            point_of(r) == ({
                let n = self.anchor_spec(Anchor::East);
                (n.0 + xshift, n.1)
            }),
    {
        let n = self.east();
        Vector2::new(n.x + xshift, n.y)
    }

    /// The point `xshift` left of and `yshift` above the north-west anchor.
    pub fn above_left(&self, xshift: Scalar, yshift: Scalar) -> (r: Vector2)
        requires
            self.in_range(),
            in_range(xshift as int),
            in_range(yshift as int),
        ensures
            point_of(r) == ({
                let n = self.anchor_spec(Anchor::NorthWest);
                (n.0 - xshift, n.1 - yshift)
            }),
    {
        let n = self.northwest();
        Vector2::new(n.x - xshift, n.y - yshift)
    }

    /// The point `xshift` right of and `yshift` above the north-east anchor.
    pub fn above_right(&self, xshift: Scalar, yshift: Scalar) -> (r: Vector2)
        requires
            self.in_range(),
            in_range(xshift as int),
            in_range(yshift as int),
        ensures
            point_of(r) == ({
                let n = self.anchor_spec(Anchor::NorthEast);
                (n.0 + xshift, n.1 - yshift)
            }),
    {
        let n = self.northeast();
        Vector2::new(n.x + xshift, n.y - yshift)
    }

    /// The point `xshift` left of and `yshift` below the south-west anchor.
    pub fn below_left(&self, xshift: Scalar, yshift: Scalar) -> (r: Vector2)
        requires
            self.in_range(),
            in_range(xshift as int),
            in_range(yshift as int),
        ensures
            point_of(r) == ({
                let n = self.anchor_spec(Anchor::SouthWest);
                (n.0 - xshift, n.1 + yshift)
            }),
    {
        let n = self.southwest();
        Vector2::new(n.x - xshift, n.y + yshift)
    }

    /// The point `xshift` right of and `yshift` below the south-east anchor.
    pub fn below_right(&self, xshift: Scalar, yshift: Scalar) -> (r: Vector2)
        requires
            self.in_range(),
            in_range(xshift as int),
            in_range(yshift as int),
        ensures
            point_of(r) == ({
                let n = self.anchor_spec(Anchor::SouthEast);
                (n.0 + xshift, n.1 + yshift)
            }),
    {
        let n = self.southeast();
        Vector2::new(n.x + xshift, n.y + yshift)
    }
}

/// The origin anchor of every shape is its center.
pub proof fn lemma_origin_is_center(s: Shape)
    ensures
        s.anchor_spec(Anchor::Origin) == s.center(),
{
}

/// The cosine and sine of the four axis directions are exact.
pub proof fn lemma_axis_directions()
    ensures
        unit_direction(0) == (UNIT as int, 0int),
        unit_direction(90_000_000) == (0int, UNIT as int),
        unit_direction(180_000_000) == (-UNIT as int, 0int),
        unit_direction(-90_000_000) == (0int, -UNIT as int),
{
    assert(0int * 0int == 0);
}

/// On a circle, the north and south anchors are symmetric about the center,
/// and so are the east and west anchors.
pub proof fn lemma_circle_symmetry(origin: Vector2, radius: Scalar)
    ensures
        ({
            let n = circle_anchor(Anchor::North, point_of(origin), radius as int);
            let s = circle_anchor(Anchor::South, point_of(origin), radius as int);
            n.0 + s.0 == 2 * origin.x && n.1 + s.1 == 2 * origin.y
        }),
        ({
            let e = circle_anchor(Anchor::East, point_of(origin), radius as int);
            let w = circle_anchor(Anchor::West, point_of(origin), radius as int);
            e.0 + w.0 == 2 * origin.x && e.1 + w.1 == 2 * origin.y
        }),
{
    lemma_axis_directions();
    lemma_mul_div_cancel(radius as int, UNIT as int);
}

/// The rectangle of the given extents centered on the origin.
pub open spec fn centered_rectangle(width: Scalar, height: Scalar) -> Shape {
    Shape::Rectangle { origin: Vector2 { x: 0, y: 0 }, width, height }
}

/// The north-east corner of a rectangle centered on the origin lies half its
/// width to the right and half its height up (toward smaller `y`), exactly.
pub proof fn lemma_rectangle_corner(width: Scalar, height: Scalar)
    requires
        width >= 0,
        height >= 0,
    ensures
        centered_rectangle(width, height).anchor_spec(Anchor::NorthEast) == (width / 2, -(height / 2)),
        width % 2 == 0 && height % 2 == 0 ==> 2 * centered_rectangle(width, height).anchor_spec(
            Anchor::NorthEast,
        ).0 == width && 2 * centered_rectangle(width, height).anchor_spec(Anchor::NorthEast).1
            == -height,
{
}

/// A polar anchor at a compass direction's fixed angle is that compass
/// anchor, on every circle.
pub proof fn lemma_polar_matches_compass(a: Anchor, origin: Vector2, radius: Scalar, angle: Scalar)
    requires
        is_compass(a),
        angle == compass_angle(a),
    ensures
        circle_anchor((Anchor::Polar { radius, angle }), point_of(origin), radius as int)
            == circle_anchor(a, point_of(origin), radius as int),
{
}

impl Vector2 {
    /// The anchor `a` of this point, taken as a circle of [`DEFAULT_RADIUS`].
    pub fn anchor(&self, a: Anchor) -> (r: Vector2)
        requires
            self.in_range(),
            a.in_range(),
        ensures
            point_of(r) == circle_anchor(a, point_of(*self), DEFAULT_RADIUS as int),
    {
        anchor_circle(a, *self, DEFAULT_RADIUS)
    }
}

} // verus!
