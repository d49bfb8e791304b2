//! Fixed-point trigonometry on angles in degrees.
//!
//! Angles are [`Scalar`](crate::scalar::Scalar)s counting millionths of a
//! degree. Directions are reduced to the first eighth of a turn and evaluated
//! there by truncated Taylor series in millionths; multiples of a quarter
//! turn come out exact.

use vstd::prelude::*;
use vstd::arithmetic::div_mod::{
    lemma_div_is_ordered,
    lemma_div_is_ordered_by_denominator,
    lemma_fundamental_div_mod,
    lemma_fundamental_div_mod_converse,
};
use crate::scalar::{in_range, Scalar, UNIT};

verus! {

/// A full turn, in millionths of a degree.
pub const FULL_TURN: Scalar = 360_000_000;

/// A quarter turn, in millionths of a degree.
pub const QUARTER_TURN: Scalar = 90_000_000;

/// An eighth of a turn, in millionths of a degree.
pub const EIGHTH_TURN: Scalar = 45_000_000;

/// Half a turn, in millionths of a degree.
pub const HALF_TURN: Scalar = 180_000_000;

/// The number pi, in millionths.
pub const PI: Scalar = 3_141_593;

/// An angle of at most an eighth of a turn (millionths of a degree) in
/// millionths of a radian.
pub open spec fn radians(d: int) -> int {
    d * PI / (HALF_TURN as int)
}

/// One step of the Horner evaluation `1 - x2 / c * u`, in millionths.
pub open spec fn horner(x2: int, u: int, c: int) -> int {
    UNIT - x2 * u / (c * UNIT)
}

/// The sine series `x (1 - x²/6 (1 - x²/20 (1 - x²/42 (1 - x²/72 (1 - x²/110)))))`
/// at `x` millionths of a radian.
pub open spec fn sin_series(x: int) -> int {
    let x2 = x * x / (UNIT as int);
    x * horner(x2, horner(x2, horner(x2, horner(x2, horner(x2, UNIT as int, 110), 72), 42), 20), 6)
        / (UNIT as int)
}

/// The cosine series `1 - x²/2 (1 - x²/12 (1 - x²/30 (1 - x²/56 (1 - x²/90 (1 - x²/132)))))`
/// at `x` millionths of a radian.
pub open spec fn cos_series(x: int) -> int {
    let x2 = x * x / (UNIT as int);
    horner(
        x2,
        horner(x2, horner(x2, horner(x2, horner(x2, horner(x2, UNIT as int, 132), 90), 56), 30), 12),
        2,
    )
}

/// Cosine and sine, in millionths, of the angle `a` (millionths of a degree):
/// the angle is brought into one turn, split into quarter turns and a rest,
/// and a rest above an eighth of a turn is taken from the next quarter.
pub open spec fn unit_direction(a: int) -> (int, int) {
    let t = a % FULL_TURN as int;
    let q = t / QUARTER_TURN as int;
    let r = t % QUARTER_TURN as int;
    let base = if r <= EIGHTH_TURN {
        (cos_series(radians(r)), sin_series(radians(r)))
    } else {
        let x = radians(QUARTER_TURN - r);
        (sin_series(x), cos_series(x))
    };
    if q == 0 {
        base
    } else if q == 1 {
        (-base.1, base.0)
    } else if q == 2 {
        (-base.0, -base.1)
    } else {
        (base.1, -base.0)
    }
}

/// The largest value of `x * x / UNIT` on the first eighth of a turn.
pub const MAX_SQUARE: i64 = 616_851;

fn horner_step(x2: i64, u: i64, c: i64) -> (r: i64)
    requires
        0 <= x2 <= MAX_SQUARE,
        0 <= u <= UNIT,
        2 <= c <= 132,
    ensures
        r == horner(x2 as int, u as int, c as int),
        0 <= r <= UNIT,
{
    let ghost bound: int = MAX_SQUARE * UNIT;
    assert(0 <= x2 * u <= bound) by (nonlinear_arith)
        requires
            0 <= x2 <= MAX_SQUARE,
            0 <= u <= UNIT,
            bound == MAX_SQUARE * UNIT,
    ;
    assert(2 * UNIT <= c * UNIT <= 132 * UNIT) by (nonlinear_arith)
        requires
            2 <= c <= 132,
    ;
    proof {
        lemma_div_is_ordered(x2 * u, bound, c * UNIT);
        lemma_div_is_ordered_by_denominator(bound, 2 * UNIT, c * UNIT);
        lemma_fundamental_div_mod_converse(bound, 2 * UNIT, 308_425, 1_000_000);
    }
    UNIT - x2 * u / (c * UNIT)
}

/// `x * x / UNIT` and its bound on the first eighth of a turn.
fn square(x: i64) -> (r: i64)
    requires
        0 <= x <= 785_399,
    ensures
        r == x * x / (UNIT as int),
        0 <= r <= MAX_SQUARE,
{
    assert(0 <= x * x <= 785_399 * 785_399) by (nonlinear_arith)
        requires
            0 <= x <= 785_399,
    ;
    proof {
        lemma_div_is_ordered(x * x, 785_399int * 785_399int, UNIT as int);
    }
    x * x / UNIT
}

/// The sine series at `x` millionths of a radian, `x` at most pi / 4.
fn sin_of(x: i64) -> (r: i64)
    requires
        0 <= x <= 785_399,
    ensures
        r == sin_series(x as int),
        0 <= r <= UNIT,
{
    let x2 = square(x);
    let u = horner_step(x2, UNIT, 110);
    let u = horner_step(x2, u, 72);
    let u = horner_step(x2, u, 42);
    let u = horner_step(x2, u, 20);
    let u = horner_step(x2, u, 6);
    assert(0 <= x * u <= 785_399 * UNIT) by (nonlinear_arith)
        requires
            0 <= x <= 785_399,
            0 <= u <= UNIT,
    ;
    proof {
        lemma_div_is_ordered(x * u, 785_399 * UNIT, UNIT as int);
    }
    x * u / UNIT
}

/// The cosine series at `x` millionths of a radian, `x` at most pi / 4.
fn cos_of(x: i64) -> (r: i64)
    requires
        0 <= x <= 785_399,
    ensures
        r == cos_series(x as int),
        0 <= r <= UNIT,
{
    let x2 = square(x);
    let u = horner_step(x2, UNIT, 132);
    let u = horner_step(x2, u, 90);
    let u = horner_step(x2, u, 56);
    let u = horner_step(x2, u, 30);
    let u = horner_step(x2, u, 12);
    horner_step(x2, u, 2)
}

/// An angle of at most an eighth of a turn, in millionths of a radian.
fn to_radians(d: i64) -> (r: i64)
    requires
        0 <= d <= EIGHTH_TURN,
    ensures
        r == radians(d as int),
        0 <= r <= 785_399,
{
    assert(0 <= d * PI <= EIGHTH_TURN * PI) by (nonlinear_arith)
        requires
            0 <= d <= EIGHTH_TURN,
    ;
    proof {
        lemma_div_is_ordered(d * PI, EIGHTH_TURN * PI, HALF_TURN as int);
    }
    d * PI / HALF_TURN
}

/// `a` brought into `[0, FULL_TURN)`.
fn reduce_turn(a: i64) -> (r: i64)
    requires
        in_range(a as int),
    ensures
        r == (a as int) % (FULL_TURN as int),
        0 <= r < FULL_TURN,
{
    if a >= 0 {
        a % FULL_TURN
    } else {
        let m: i64 = (-a) % FULL_TURN;
        proof {
            lemma_fundamental_div_mod(-a, FULL_TURN as int);
            let q = (-a) / (FULL_TURN as int);
            if m == 0 {
                lemma_fundamental_div_mod_converse(a as int, FULL_TURN as int, -q, 0);
            } else {
                lemma_fundamental_div_mod_converse(a as int, FULL_TURN as int, -q - 1, FULL_TURN - m);
            }
        }
        if m == 0 {
            0
        } else {
            FULL_TURN - m
        }
    }
}

/// Cosine and sine, in millionths, of `angle` millionths of a degree.
pub fn direction(angle: Scalar) -> (r: (Scalar, Scalar))
    requires
        in_range(angle as int),
    ensures
        (r.0 as int, r.1 as int) == unit_direction(angle as int),
        -UNIT <= r.0 <= UNIT,
        -UNIT <= r.1 <= UNIT,
{
    let t = reduce_turn(angle);
    let q = t / QUARTER_TURN;
    let rest = t % QUARTER_TURN;
    let (c0, s0) = if rest <= EIGHTH_TURN {
        let x = to_radians(rest);
        (cos_of(x), sin_of(x))
    } else {
        let x = to_radians(QUARTER_TURN - rest);
        (sin_of(x), cos_of(x))
    };
    if q == 0 {
        (c0, s0)
    } else if q == 1 {
        (-s0, c0)
    } else if q == 2 {
        (-c0, -s0)
    } else {
        (s0, -c0)
    }
}

} // verus!
