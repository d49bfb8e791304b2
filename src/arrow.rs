//! Arrow geometry: pulling a line's end back so that an arrowhead drawn on
//! it ends at the target, and the paths of straight and elbowed arrows.

use vstd::prelude::*;
use vstd::math::abs;
use crate::path::{point_of, Path, PathBuilder, Point, Segment};
use crate::scalar::{div_toward_zero, in_range, Scalar, Vector2, LIMIT};

verus! {

/// The length of the default arrowhead, along the line.
pub const ARROW_X: Scalar = 10_000_000;

/// The half width of the default arrowhead, across the line.
pub const ARROW_Y: Scalar = 3_000_000;

/// How far an arrow's line stops short of its target: three quarters of the
/// arrowhead's length.
pub const ARROW_SHIFT: Scalar = 7_500_000;

/// The integer square root: the largest `r` with `r * r <= n`.
pub open spec fn floor_sqrt(n: nat) -> nat
    decreases n,
{
    if n == 0 {
        0
    } else {
        let r = floor_sqrt((n - 1) as nat);
        if (r + 1) * (r + 1) <= n {
            r + 1
        } else {
            r
        }
    }
}

pub proof fn lemma_floor_sqrt(n: nat)
    ensures
        floor_sqrt(n) * floor_sqrt(n) <= n < (floor_sqrt(n) + 1) * (floor_sqrt(n) + 1),
    decreases n,
{
    if n > 0 {
        lemma_floor_sqrt((n - 1) as nat);
        let r = floor_sqrt((n - 1) as nat);
        assert((r + 1) * (r + 1) < (r + 2) * (r + 2)) by (nonlinear_arith);
        if (r + 1) * (r + 1) <= n {
            assert(floor_sqrt(n) == r + 1);
            assert(n < (r + 2) * (r + 2));
            assert((floor_sqrt(n) + 1) * (floor_sqrt(n) + 1) == (r + 2) * (r + 2));
            assert(n < (floor_sqrt(n) + 1) * (floor_sqrt(n) + 1));
        } else {
            assert(floor_sqrt(n) == r);
            assert(r * r <= n);
            assert(n < (r + 1) * (r + 1));
            assert(n < (floor_sqrt(n) + 1) * (floor_sqrt(n) + 1));
        }
    } else {
        assert(floor_sqrt(n) == 0);
        let f = floor_sqrt(n);
        assert(f * f == 0 && (f + 1) * (f + 1) == 1) by (nonlinear_arith)
            requires
                f == 0,
        ;
    }
}

/// A square below `(l + 1)²` is at most `l²`.
proof fn lemma_square_below(a: int, l: int)
    requires
        l >= 0,
        a * a < (l + 1) * (l + 1),
    ensures
        a * a <= l * l,
{
    if a > l {
        assert((l + 1) * (l + 1) <= a * a) by (nonlinear_arith)
            requires
                a >= l + 1,
                l >= 0,
        ;
    } else if a < -l {
        assert((l + 1) * (l + 1) <= a * a) by (nonlinear_arith)
            requires
                -a >= l + 1,
                l >= 0,
        ;
    } else {
        assert(a * a <= l * l) by (nonlinear_arith)
            requires
                -l <= a <= l,
        ;
    }
}

/// Only `floor_sqrt(n)` lies between the square root's floor bounds.
pub proof fn lemma_floor_sqrt_unique(n: nat, r: nat)
    requires
        r * r <= n < (r + 1) * (r + 1),
    ensures
        r == floor_sqrt(n),
{
    lemma_floor_sqrt(n);
    let s = floor_sqrt(n);
    if r < s {
        assert((r + 1) * (r + 1) <= s * s) by (nonlinear_arith)
            requires
                r + 1 <= s,
        ;
    } else if s < r {
        assert((s + 1) * (s + 1) <= r * r) by (nonlinear_arith)
            requires
                s + 1 <= r,
        ;
    }
}

/// The integer square root, by bisection.
pub fn isqrt(n: u128) -> (r: u64)
    requires
        n < 0x1_0000_0000_0000_0000_0000_0000_0000,
    ensures
        r == floor_sqrt(n as nat),
{
    let mut lo: u128 = 0;
    let mut hi: u128 = 0x100_0000_0000_0000;
    assert(hi * hi == 0x1_0000_0000_0000_0000_0000_0000_0000) by (nonlinear_arith)
        requires
            hi == 0x100_0000_0000_0000,
    ;
    while lo + 1 < hi
        invariant
            lo < hi <= 0x100_0000_0000_0000,
            lo * lo <= n,
            n < hi * hi,
        decreases hi - lo,
    {
        let mid = lo + (hi - lo) / 2;
        assert(mid * mid <= 0x1_0000_0000_0000_0000_0000_0000_0000) by (nonlinear_arith)
            requires
                mid <= 0x100_0000_0000_0000,
        ;
        if mid * mid <= n {
            lo = mid;
        } else {
            hi = mid;
        }
    }
    proof {
        lemma_floor_sqrt_unique(n as nat, lo as nat);
    }
    lo as u64
}

/// The model's length of the displacement `(dx, dy)`: the integer square root
/// of its squared length.
pub open spec fn length(dx: int, dy: int) -> nat {
    floor_sqrt((dx * dx + dy * dy) as nat)
}

/// Where an arrow from `start` to `end` must stop so that a marker of length
/// `shift` ends at `end`. With `l` the distance from `start` to `end`, that
/// is `start + (end - start) (l - shift) / l`, rounded toward `start`. A
/// line of length zero gives `end` back, and a shift of at least the whole
/// length stops at `start`.
pub open spec fn trimmed(start: Point, end: Point, shift: int) -> Point {
    let dx = end.0 - start.0;
    let dy = end.1 - start.1;
    let l = length(dx, dy) as int;
    if l == 0 {
        end
    } else if shift >= l {
        start
    } else {
        (start.0 + div_toward_zero(dx * (l - shift), l), start.1 + div_toward_zero(dy * (l - shift), l))
    }
}

/// One coordinate of the displacement, scaled by `k / l`.
fn scale_coordinate(d: i64, k: i64, l: i64) -> (r: i64)
    requires
        l > 0,
        0 < k <= 2 * LIMIT + l,
        l <= 4 * LIMIT,
        d * d <= l * l,
    ensures
        r == div_toward_zero(d * k, l as int),
        -(2 * LIMIT + l) <= r <= 2 * LIMIT + l,
{
    let ghost bound: int = (2 * LIMIT + l) * l;
    assert(-l <= d <= l) by (nonlinear_arith)
        requires
            d * d <= l * l,
            l > 0,
    ;
    assert(-bound <= d * k <= bound) by (nonlinear_arith)
        requires
            -l <= d <= l,
            0 < k <= 2 * LIMIT + l,
            bound == (2 * LIMIT + l) * l,
    ;
    assert(bound <= 6 * LIMIT * 4 * LIMIT) by (nonlinear_arith)
        requires
            0 < l <= 4 * LIMIT,
            bound == (2 * LIMIT + l) * l,
    ;
    let p: i128 = (d as i128) * (k as i128);
    proof {
        vstd::arithmetic::div_mod::lemma_div_by_multiple(2 * LIMIT + l, l as int);
        if p >= 0 {
            vstd::arithmetic::div_mod::lemma_div_is_ordered(p as int, bound, l as int);
            vstd::arithmetic::div_mod::lemma_div_is_ordered(0, p as int, l as int);
        } else {
            vstd::arithmetic::div_mod::lemma_div_is_ordered(-p, bound, l as int);
            vstd::arithmetic::div_mod::lemma_div_is_ordered(0, -p, l as int);
        }
    }
    if p >= 0 {
        (p / (l as i128)) as i64
    } else {
        (-((-p) / (l as i128))) as i64
    }
}

/// Pulls the end of the line from `start` to `end` back by `shift` along the
/// line (see [`trimmed`]).
pub fn trim_endpoint(start: Vector2, end: Vector2, shift: Scalar) -> (r: Vector2)
    requires
        start.in_range(),
        end.in_range(),
        in_range(shift as int),
    ensures
        point_of(r) == trimmed(point_of(start), point_of(end), shift as int),
        start == end ==> r == end,
        shift >= 0 ==> r.in_range(),
{
    let dx: i64 = end.x - start.x;
    let dy: i64 = end.y - start.y;
    assert(0 <= dx * dx <= 4 * LIMIT * LIMIT) by (nonlinear_arith)
        requires
            -2 * LIMIT <= dx <= 2 * LIMIT,
    ;
    assert(0 <= dy * dy <= 4 * LIMIT * LIMIT) by (nonlinear_arith)
        requires
            -2 * LIMIT <= dy <= 2 * LIMIT,
    ;
    let squared: u128 = ((dx as i128) * (dx as i128) + (dy as i128) * (dy as i128)) as u128;
    let l = isqrt(squared);
    proof {
        lemma_floor_sqrt(squared as nat);
        assert(l <= 4 * LIMIT) by (nonlinear_arith)
            requires
                l * l <= squared,
                squared <= 8 * LIMIT * LIMIT,
        ;
        lemma_square_below(dx as int, l as int);
        lemma_square_below(dy as int, l as int);
    }
    let l = l as i64;
    if start == end {
        assert(dx == 0 && dy == 0);
        assert(dx * dx == 0 && dy * dy == 0) by (nonlinear_arith)
            requires
                dx == 0 && dy == 0,
        ;
        assert(squared == 0);
        assert(floor_sqrt(0) == 0);
    }
    if l == 0 {
        end
    } else if shift >= l {
        start
    } else {
        let k = l - shift;
        proof {
            if shift >= 0 {
                lemma_trim_coordinate(dx as int, l as int, shift as int);
                lemma_trim_coordinate(dy as int, l as int, shift as int);
            }
        }
        let ox = scale_coordinate(dx, k, l);
        let oy = scale_coordinate(dy, k, l);
        assert(shift >= 0 ==> abs(ox as int) <= abs(dx as int) && ox * dx >= 0);
        assert(shift >= 0 ==> abs(oy as int) <= abs(dy as int) && oy * dy >= 0);
        proof {
            if shift >= 0 {
                assert(dx >= 0 ==> ox >= 0) by (nonlinear_arith)
                    requires
                        ox * dx >= 0,
                        abs(ox as int) <= abs(dx as int),
                ;
                assert(dx < 0 ==> ox <= 0) by (nonlinear_arith)
                    requires
                        ox * dx >= 0,
                        abs(ox as int) <= abs(dx as int),
                ;
                assert(dy >= 0 ==> oy >= 0) by (nonlinear_arith)
                    requires
                        oy * dy >= 0,
                        abs(oy as int) <= abs(dy as int),
                ;
                assert(dy < 0 ==> oy <= 0) by (nonlinear_arith)
                    requires
                        oy * dy >= 0,
                        abs(oy as int) <= abs(dy as int),
                ;
            }
        }
        Vector2::new(start.x + ox, start.y + oy)
    }
}

/// What rounding toward zero keeps of `a / l`.
proof fn lemma_div_toward_zero_bounds(a: int, l: int)
    requires
        l > 0,
    ensures
        a >= 0 ==> 0 <= div_toward_zero(a, l) * l <= a < div_toward_zero(a, l) * l + l,
        a < 0 ==> div_toward_zero(a, l) * l - l < a <= div_toward_zero(a, l) * l <= 0,
{
    if a >= 0 {
        vstd::arithmetic::div_mod::lemma_fundamental_div_mod(a, l);
        vstd::arithmetic::div_mod::lemma_div_pos_is_pos(a, l);
        assert(0 <= (a / l) * l) by (nonlinear_arith)
            requires
                a / l >= 0,
                l > 0,
        ;
    } else {
        vstd::arithmetic::div_mod::lemma_fundamental_div_mod(-a, l);
        vstd::arithmetic::div_mod::lemma_div_pos_is_pos(-a, l);
        assert(0 <= ((-a) / l) * l) by (nonlinear_arith)
            requires
                (-a) / l >= 0,
                l > 0,
        ;
        vstd::arithmetic::div_mod::lemma_mod_pos_bound(-a, l);
        let qq = (-a) / l;
        let m = (-a) % l;
        assert(-a == qq * l + m) by (nonlinear_arith)
            requires
                -a == l * qq + m,
        ;
        assert(div_toward_zero(a, l) * l == -(qq * l)) by (nonlinear_arith)
            requires
                div_toward_zero(a, l) == -qq,
        ;
        assert(0 <= m < l);
    }
}

/// One coordinate of a trimmed line: the offset `q = d (l - s) / l`, rounded
/// toward zero, is within one `l`-th of exact, points the way `d` points,
/// and is no longer than `d`.
proof fn lemma_trim_coordinate(d: int, l: int, s: int)
    requires
        0 <= s < l,
    ensures
        ({
            let q = div_toward_zero(d * (l - s), l);
            &&& -l < q * l - d * (l - s) < l
            &&& q * d >= 0
            &&& abs(q) <= abs(d)
            &&& q * q * (l * l) <= d * d * ((l - s) * (l - s))
        }),
{
    let a = d * (l - s);
    let q = div_toward_zero(a, l);
    lemma_div_toward_zero_bounds(a, l);
    assert((q * l) * (q * l) <= a * a) by (nonlinear_arith)
        requires
            a >= 0 ==> 0 <= q * l <= a,
            a < 0 ==> a <= q * l <= 0,
    ;
    assert(q * q * (l * l) == (q * l) * (q * l)) by (nonlinear_arith);
    assert(a * a == d * d * ((l - s) * (l - s))) by (nonlinear_arith)
        requires
            a == d * (l - s),
    ;
    if d >= 0 {
        assert(0 <= a <= d * l) by (nonlinear_arith)
            requires
                d >= 0,
                0 <= s < l,
                a == d * (l - s),
        ;
        assert(q >= 0 && q <= d) by (nonlinear_arith)
            requires
                0 <= q * l <= a,
                a <= d * l,
                l > 0,
        ;
        assert(q * d >= 0) by (nonlinear_arith)
            requires
                q >= 0,
                d >= 0,
        ;
    } else {
        assert(d * l <= a < 0) by (nonlinear_arith)
            requires
                d < 0,
                0 <= s < l,
                a == d * (l - s),
        ;
        assert(q <= 0 && q >= d) by (nonlinear_arith)
            requires
                a <= q * l <= 0,
                d * l <= a,
                l > 0,
        ;
        assert(q * d >= 0) by (nonlinear_arith)
            requires
                q <= 0,
                d < 0,
        ;
    }
}

/// The squared offset loses at most `2 |d| l²` to rounding (times `l²`).
proof fn lemma_trim_coordinate_lower(d: int, l: int, s: int)
    requires
        0 <= s < l,
    ensures
        ({
            let q = div_toward_zero(d * (l - s), l);
            q * q * (l * l) >= d * d * ((l - s) * (l - s)) - 2 * abs(d) * (l * l)
        }),
{
    let a = d * (l - s);
    let q = div_toward_zero(a, l);
    let e = abs(d);
    lemma_div_toward_zero_bounds(a, l);
    assert(q * q * (l * l) == (q * l) * (q * l)) by (nonlinear_arith);
    assert(a * a == d * d * ((l - s) * (l - s))) by (nonlinear_arith)
        requires
            a == d * (l - s),
    ;
    let b = abs(a);
    let p = abs(q * l);
    assert(b * b == a * a) by (nonlinear_arith)
        requires
            b == abs(a),
    ;
    assert(p * p == (q * l) * (q * l)) by (nonlinear_arith)
        requires
            p == abs(q * l),
    ;
    assert(0 <= b <= e * l) by (nonlinear_arith)
        requires
            a == d * (l - s),
            b == abs(a),
            e == abs(d),
            0 <= s < l,
    ;
    assert(p > b - l && p >= 0);
    if b >= l {
        assert(p * p >= b * b - 2 * e * (l * l)) by (nonlinear_arith)
            requires
                p > b - l,
                b >= l,
                b <= e * l,
                l > 0,
        ;
    } else {
        assert(p * p >= b * b - 2 * e * (l * l)) by (nonlinear_arith)
            requires
                p >= 0,
                0 <= b < l,
                b <= e * l,
                l > 0,
        ;
    }
}

/// When the line is longer than the shift, the trimmed end lies on the line:
/// its offset from `start`, times the length `l`, is the displacement times
/// `l - shift` to within less than `l` in each coordinate; each coordinate
/// of the offset points the same way as the displacement and is no longer
/// than it; and its distance from `start` is below `l - shift + 1`, while its
/// square is at least `(l - shift)² - 4 l`. So the end moves back by
/// `shift`, up to rounding.
pub proof fn lemma_trim_on_segment(start: Vector2, end: Vector2, shift: Scalar)
    requires
        0 <= shift,
        shift < length(end.x - start.x, end.y - start.y),
    ensures
        ({
            let dx = end.x - start.x;
            let dy = end.y - start.y;
            let l = length(dx, dy) as int;
            let r = trimmed(point_of(start), point_of(end), shift as int);
            let ox = r.0 - start.x;
            let oy = r.1 - start.y;
            &&& -l < ox * l - dx * (l - shift) < l
            &&& -l < oy * l - dy * (l - shift) < l
            &&& ox * dx >= 0 && oy * dy >= 0
            &&& abs(ox) <= abs(dx) && abs(oy) <= abs(dy)
            &&& ox * ox + oy * oy < (l - shift + 1) * (l - shift + 1)
            &&& ox * ox + oy * oy >= (l - shift) * (l - shift) - 4 * l
        }),
{
    let dx = end.x - start.x;
    let dy = end.y - start.y;
    let l = length(dx, dy) as int;
    let s = shift as int;
    lemma_trim_coordinate(dx, l, s);
    lemma_trim_coordinate(dy, l, s);
    let r = trimmed(point_of(start), point_of(end), s);
    let ox = r.0 - start.x;
    let oy = r.1 - start.y;
    let n = dx * dx + dy * dy;
    lemma_floor_sqrt(n as nat);
    assert(n >= 0) by (nonlinear_arith)
        requires
            n == dx * dx + dy * dy,
    ;
    assert((ox * ox + oy * oy) * (l * l) <= n * ((l - s) * (l - s))) by (nonlinear_arith)
        requires
            ox * ox * (l * l) <= dx * dx * ((l - s) * (l - s)),
            oy * oy * (l * l) <= dy * dy * ((l - s) * (l - s)),
            n == dx * dx + dy * dy,
    ;
    assert(n * ((l - s) * (l - s)) < (l + 1) * (l + 1) * ((l - s) * (l - s))) by (nonlinear_arith)
        requires
            n < (l + 1) * (l + 1),
            0 <= s < l,
    ;
    assert((l + 1) * (l - s) <= (l - s + 1) * l) by (nonlinear_arith)
        requires
            0 <= s < l,
    ;
    assert((l + 1) * (l + 1) * ((l - s) * (l - s)) <= (l - s + 1) * (l - s + 1) * (l * l))
        by (nonlinear_arith)
        requires
            0 <= (l + 1) * (l - s) <= (l - s + 1) * l,
    ;
    assert(ox * ox + oy * oy < (l - s + 1) * (l - s + 1)) by (nonlinear_arith)
        requires
            (ox * ox + oy * oy) * (l * l) < (l - s + 1) * (l - s + 1) * (l * l),
            l > 0,
    ;
    lemma_trim_coordinate_lower(dx, l, s);
    lemma_trim_coordinate_lower(dy, l, s);
    assert(dx * dx >= 0 && dy * dy >= 0) by (nonlinear_arith);
    assert(dx * dx < (l + 1) * (l + 1) && dy * dy < (l + 1) * (l + 1));
    lemma_square_below(dx, l);
    lemma_square_below(dy, l);
    assert(abs(dx) <= l && abs(dy) <= l) by (nonlinear_arith)
        requires
            dx * dx <= l * l,
            dy * dy <= l * l,
            l > 0,
    ;
    assert(n >= l * l);
    let x2 = ox * ox + oy * oy;
    let l2 = l * l;
    let t = (l - s) * (l - s);
    assert(x2 * l2 == ox * ox * l2 + oy * oy * l2) by (nonlinear_arith)
        requires
            x2 == ox * ox + oy * oy,
    ;
    assert(n * t == dx * dx * t + dy * dy * t) by (nonlinear_arith)
        requires
            n == dx * dx + dy * dy,
    ;
    assert(ox == div_toward_zero(dx * (l - s), l) && oy == div_toward_zero(dy * (l - s), l));
    assert(ox * ox * l2 >= dx * dx * t - 2 * abs(dx) * l2);
    assert(oy * oy * l2 >= dy * dy * t - 2 * abs(dy) * l2);
    assert(x2 * l2 >= n * t - 2 * (abs(dx) + abs(dy)) * l2) by (nonlinear_arith)
        requires
            ox * ox * l2 >= dx * dx * t - 2 * abs(dx) * l2,
            oy * oy * l2 >= dy * dy * t - 2 * abs(dy) * l2,
            x2 * l2 == ox * ox * l2 + oy * oy * l2,
            n * t == dx * dx * t + dy * dy * t,
    ;
    assert(n * t >= l2 * t) by (nonlinear_arith)
        requires
            n >= l2,
            t >= 0,
    ;
    assert(2 * (abs(dx) + abs(dy)) * l2 <= 4 * l * l2) by (nonlinear_arith)
        requires
            abs(dx) + abs(dy) <= 2 * l,
            l2 >= 0,
    ;
    assert((ox * ox + oy * oy) * (l * l) >= ((l - s) * (l - s) - 4 * l) * (l * l)) by (nonlinear_arith)
        requires
            x2 * l2 >= l2 * t - 4 * l * l2,
            x2 == ox * ox + oy * oy,
            l2 == l * l,
            t == (l - s) * (l - s),
    ;
    assert(ox * ox + oy * oy >= (l - s) * (l - s) - 4 * l) by (nonlinear_arith)
        requires
            (ox * ox + oy * oy) * (l * l) >= ((l - s) * (l - s) - 4 * l) * (l * l),
            l > 0,
    ;
}

/// [`trim_endpoint`] with the default arrowhead's shift.
pub fn arrow_end_correction(start: Vector2, end: Vector2) -> (r: Vector2)
    requires
        start.in_range(),
        end.in_range(),
    ensures
        point_of(r) == trimmed(point_of(start), point_of(end), ARROW_SHIFT as int),
        r.in_range(),
{
    trim_endpoint(start, end, ARROW_SHIFT)
}

/// The point [`trimmed`] gives, as a vector.
pub open spec fn trimmed_vector(start: Point, end: Point, shift: int) -> Vector2 {
    let t = trimmed(start, end, shift);
    Vector2 { x: t.0 as i64, y: t.1 as i64 }
}

/// The segments of a straight arrow: from `start` to the end trimmed for
/// the default arrowhead.
pub open spec fn straight_arrow_spec(start: Vector2, end: Vector2) -> Seq<Segment> {
    seq![
        Segment::MoveTo(start),
        Segment::LineTo(trimmed_vector(point_of(start), point_of(end), ARROW_SHIFT as int)),
    ]
}

/// The segments of a double-elbowed arrow: vertically by `y_shift`, across
/// to the column of `end`, then to `end` trimmed for the default arrowhead.
pub open spec fn elbow_arrow_spec(start: Vector2, end: Vector2, y_shift: Scalar) -> Seq<Segment> {
    let corner = Vector2 { x: end.x, y: (start.y + y_shift) as i64 };
    seq![
        Segment::MoveTo(start),
        Segment::VerticalLine(y_shift),
        Segment::LineTo(corner),
        Segment::LineTo(trimmed_vector(point_of(corner), point_of(end), ARROW_SHIFT as int)),
    ]
}

/// The path of a straight arrow (see [`straight_arrow_spec`]).
pub fn straight_arrow(start: Vector2, end: Vector2) -> (r: Path)
    requires
        start.in_range(),
        end.in_range(),
    ensures
        r.wf(),
        r@ == straight_arrow_spec(start, end),
{
    let end_corrected = arrow_end_correction(start, end);
    let r = PathBuilder::start(start).line_to(end_corrected).end();
    assert(r@ =~= straight_arrow_spec(start, end));
    r
}

/// The path of a double-elbowed arrow (see [`elbow_arrow_spec`]).
pub fn elbow_arrow(start: Vector2, end: Vector2, y_shift: Scalar) -> (r: Path)
    requires
        start.in_range(),
        end.in_range(),
        in_range(y_shift as int),
        in_range(start.y + y_shift),
    ensures
        r.wf(),
        r@ == elbow_arrow_spec(start, end, y_shift),
{
    let end_corner = Vector2::new(end.x, start.y + y_shift);
    let end_corrected = arrow_end_correction(end_corner, end);
    let r = PathBuilder::start(start).vline(y_shift).line_to(end_corner).line_to(end_corrected).end();
    assert(r@ =~= elbow_arrow_spec(start, end, y_shift));
    r
}

} // verus!
