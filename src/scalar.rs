//! Fixed-point scalars and two-dimensional vectors.
//!
//! A [`Scalar`] counts millionths of a pixel: the value `1.5` pixels is
//! stored as `1_500_000`. Addition and subtraction are exact; products and
//! quotients round toward zero at the last place.

use vstd::prelude::*;
use vstd::arithmetic::div_mod::{lemma_div_by_multiple, lemma_div_is_ordered};
use vstd::math::abs;

verus! {

/// A coordinate or length, in millionths of a pixel.
pub type Scalar = i64;

/// One pixel.
pub const UNIT: Scalar = 1_000_000;

/// The largest magnitude of a coordinate, length or angle that the geometry
/// accepts (about 4.5e9 pixels); it keeps every intermediate value in range.
pub const LIMIT: Scalar = 4_503_599_627_370_496;

/// `v` is a coordinate the geometry accepts.
pub open spec fn in_range(v: int) -> bool {
    -LIMIT <= v <= LIMIT
}

/// `a / d` rounded toward zero, for `d > 0`.
pub open spec fn div_toward_zero(a: int, d: int) -> int {
    if a >= 0 {
        a / d
    } else {
        -((-a) / d)
    }
}

/// `a * b / d`, rounded toward zero.
pub open spec fn mul_div_spec(a: int, b: int, d: int) -> int {
    div_toward_zero(a * b, d)
}

/// The product of two in-range values is far inside the range of `i128`.
pub proof fn lemma_product_bound(a: int, b: int)
    requires
        in_range(a),
        in_range(b),
    ensures
        -LIMIT * LIMIT <= a * b <= LIMIT * LIMIT,
{
    assert(-LIMIT * LIMIT <= a * b <= LIMIT * LIMIT) by (nonlinear_arith)
        requires
            -LIMIT <= a <= LIMIT,
            -LIMIT <= b <= LIMIT,
    ;
}

/// Scaling by a factor of magnitude at most one never grows a value.
pub proof fn lemma_mul_div_shrinks(a: int, b: int, d: int)
    requires
        d > 0,
        -d <= b <= d,
    ensures
        -abs(a) <= mul_div_spec(a, b, d) <= abs(a),
{
    let m = abs(a) * d;
    assert(-m <= a * b <= m) by (nonlinear_arith)
        requires
            -d <= b <= d,
            m == abs(a) * d,
            d > 0,
    ;
    assert(0 <= m) by (nonlinear_arith)
        requires
            m == abs(a) * d,
            d > 0,
    ;
    lemma_div_by_multiple(abs(a) as int, d);
    if a * b >= 0 {
        lemma_div_is_ordered(a * b, m, d);
        lemma_div_is_ordered(0, a * b, d);
    } else {
        lemma_div_is_ordered(-(a * b), m, d);
        lemma_div_is_ordered(0, -(a * b), d);
    }
}

/// Multiplying by `d` and dividing by `d` gives the value back.
pub proof fn lemma_mul_div_cancel(a: int, d: int)
    requires
        d > 0,
    ensures
        mul_div_spec(a, d, d) == a,
        mul_div_spec(a, -d, d) == -a,
        mul_div_spec(a, 0, d) == 0,
{
    if a >= 0 {
        lemma_div_by_multiple(a, d);
        assert(a * -d == -(a * d)) by (nonlinear_arith);
        if a > 0 {
            assert(a * d > 0) by (nonlinear_arith)
                requires
                    a > 0,
                    d > 0,
            ;
        }
    } else {
        lemma_div_by_multiple(-a, d);
        assert(a * d == -((-a) * d)) by (nonlinear_arith);
        assert(a * -d == (-a) * d) by (nonlinear_arith);
        assert((-a) * d > 0) by (nonlinear_arith)
            requires
                a < 0,
                d > 0,
        ;
    }
    assert(a * 0 == 0);
}

/// `v / 2` rounded toward zero, for values up to four times the range.
pub fn half(v: i64) -> (r: i64)
    requires
        -4 * LIMIT <= v <= 4 * LIMIT,
    ensures
        r == div_toward_zero(v as int, 2),
{
    if v >= 0 {
        v / 2
    } else {
        -((-v) / 2)
    }
}

/// Computes `a * b / d` rounded toward zero, without intermediate overflow.
pub fn mul_div(a: i64, b: i64, d: i64) -> (r: i64)
    requires
        d > 0,
        in_range(a as int),
        in_range(b as int),
        -LIMIT <= mul_div_spec(a as int, b as int, d as int) <= LIMIT,
    ensures
        r == mul_div_spec(a as int, b as int, d as int),
{
    proof {
        lemma_product_bound(a as int, b as int);
    }
    let p: i128 = (a as i128) * (b as i128);
    if p >= 0 {
        (p / (d as i128)) as i64
    } else {
        let q: i128 = (-p) / (d as i128);
        (-q) as i64
    }
}

/// A length in pixels.
pub fn px(v: Scalar) -> (r: Scalar)
    ensures
        r == v,
{
    v
}

/// A length in millimetres, at four pixels to the millimetre.
pub fn mm(v: Scalar) -> (r: Scalar)
    requires
        in_range(v as int),
    ensures
        r == 4 * v,
{
    4 * v
}

/// A length in centimetres, at forty pixels to the centimetre.
pub fn cm(v: Scalar) -> (r: Scalar)
    requires
        in_range(v as int),
    ensures
        r == 40 * v,
{
    40 * v
}

/// A length in inches, at ninety-six pixels to the inch.
pub fn inch(v: Scalar) -> (r: Scalar)
    requires
        in_range(v as int),
    ensures
        r == 96 * v,
{
    96 * v
}

/// A point or displacement in the plane. Positive `x` points right (east),
/// positive `y` points down (south), as in image coordinates.
#[derive(Clone, Copy, Debug, PartialEq, Eq, Structural)]
pub struct Vector2 {
    pub x: Scalar,
    pub y: Scalar,
}

impl Vector2 {
    /// Both coordinates lie within [`LIMIT`].
    pub open spec fn in_range(&self) -> bool {
        in_range(self.x as int) && in_range(self.y as int)
    }

    pub fn new(x: Scalar, y: Scalar) -> (r: Vector2)
        ensures
            r.x == x,
            r.y == y,
    {
        Vector2 { x, y }
    }

    /// The zero vector.
    pub fn zeros() -> (r: Vector2)
        ensures
            r.x == 0,
            r.y == 0,
    {
        Vector2 { x: 0, y: 0 }
    }

    /// The sum `self + o`.
    pub fn plus(&self, o: &Vector2) -> (r: Vector2)
        requires
            self.in_range(),
            o.in_range(),
        ensures
            r.x == self.x + o.x,
            r.y == self.y + o.y,
    {
        Vector2 { x: self.x + o.x, y: self.y + o.y }
    }

    /// The difference `self - o`.
    pub fn minus(&self, o: &Vector2) -> (r: Vector2)
        requires
            self.in_range(),
            o.in_range(),
        ensures
            r.x == self.x - o.x,
            r.y == self.y - o.y,
    {
        Vector2 { x: self.x - o.x, y: self.y - o.y }
    }
}

} // verus!
