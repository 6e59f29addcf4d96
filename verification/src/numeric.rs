//! Fixed-point helpers shared by the movement resolver and the cell
//! derivation rule: rounding a milli-unit coordinate to its grid cell,
//! cubic ease-in-out on a progress value, and interpolation along a
//! single-cell step.

use vstd::prelude::*;
use crate::COORD_LIMIT;

verus! {

/// Nearest integer to `v / 1000`, halves rounded away from zero: the same
/// rule as rounding the corresponding binary floating-point coordinate.
pub open spec fn spec_round_milli(v: int) -> int {
    if v >= 0 {
        (v + 500) / 1000
    } else {
        -(((-v) + 500) / 1000)
    }
}

/// Rounds a milli-unit coordinate to the nearest whole unit,
/// halves away from zero.
pub fn round_milli(v: i64) -> (r: i64)
    requires
        -2 * COORD_LIMIT <= v <= 2 * COORD_LIMIT,
    ensures
        r == spec_round_milli(v as int),
{
    if v >= 0 {
        (v + 500) / 1000
    } else {
        -(((-v) + 500) / 1000)
    }
}

/// A rounded cell stays far inside the coordinate range: rounding divides
/// the magnitude by the fixed-point scale.
pub proof fn lemma_round_range(v: int)
    requires
        -2 * COORD_LIMIT <= v <= 2 * COORD_LIMIT,
    ensures
        -(COORD_LIMIT - 1000) <= spec_round_milli(v) <= COORD_LIMIT - 1000,
{
    if v >= 0 {
        vstd::arithmetic::div_mod::lemma_div_is_ordered(v + 500, 2 * COORD_LIMIT + 500, 1000);
        vstd::arithmetic::div_mod::lemma_div_pos_is_pos(v + 500, 1000);
    } else {
        vstd::arithmetic::div_mod::lemma_div_is_ordered(-v + 500, 2 * COORD_LIMIT + 500, 1000);
        vstd::arithmetic::div_mod::lemma_div_pos_is_pos(-v + 500, 1000);
    }
}

/// Cubic ease-in-out over milli-scaled progress: for `t` in `0..=1000`,
/// the first half follows `4 t^3` and the second half its point reflection,
/// each scaled back to milli-units.
pub open spec fn spec_ease_cubic(t: int) -> int {
    if t < 500 {
        (4 * t * t * t) / 1000000
    } else {
        1000 - (4 * (1000 - t) * (1000 - t) * (1000 - t)) / 1000000
    }
}

/// The eased progress stays within the same milli-scaled unit interval.
pub proof fn lemma_ease_cubic_bounds(t: int)
    requires
        0 <= t <= 1000,
    ensures
        0 <= spec_ease_cubic(t) <= 1000,
{
    if t < 500 {
        assert(4 * t * t * t <= 4 * 500 * 500 * 500) by (nonlinear_arith)
            requires 0 <= t <= 500;
        assert(4 * t * t * t >= 0) by (nonlinear_arith)
            requires t >= 0;
    } else {
        let u = 1000 - t;
        assert(4 * u * u * u <= 4 * 500 * 500 * 500) by (nonlinear_arith)
            requires 0 <= u <= 500;
        assert(4 * u * u * u >= 0) by (nonlinear_arith)
            requires u >= 0;
    }
}

/// Cubic ease-in-out: maps a progress value in `0..=1000` to an eased
/// progress value in `0..=1000`, slow near both endpoints.
pub fn ease_cubic(t: i64) -> (r: i64)
    requires
        0 <= t <= 1000,
    ensures
        r == spec_ease_cubic(t as int),
        0 <= r <= 1000,
{
    proof {
        lemma_ease_cubic_bounds(t as int);
    }
    if t < 500 {
        proof {
            assert(0 <= 4 * (t as int) * (t as int)
                && 4 * (t as int) * (t as int) <= 4 * 500 * 500
                && 0 <= 4 * (t as int) * (t as int) * (t as int)
                && 4 * (t as int) * (t as int) * (t as int) <= 4 * 500 * 500 * 500)
                by (nonlinear_arith)
                requires 0 <= t < 500;
        }
        (4 * t * t * t) / 1000000
    } else {
        let u = 1000 - t;
        proof {
            assert(0 <= 4 * (u as int) * (u as int)
                && 4 * (u as int) * (u as int) <= 4 * 500 * 500
                && 0 <= 4 * (u as int) * (u as int) * (u as int)
                && 4 * (u as int) * (u as int) * (u as int) <= 4 * 500 * 500 * 500)
                by (nonlinear_arith)
                requires 0 <= u <= 500;
        }
        1000 - (4 * u * u * u) / 1000000
    }
}

/// Linear interpolation from `a` towards `b` by the milli-scaled fraction
/// `s`, where `b` is at most one whole unit away from `a`: the exact
/// positions a single-cell movement step passes through.
pub open spec fn spec_lerp_unit(a: int, b: int, s: int) -> int {
    a + ((b - a) * s) / 1000
}

/// Interpolates between two coordinates one whole unit (or zero) apart.
pub fn lerp_unit(a: i64, b: i64, s: i64) -> (r: i64)
    requires
        0 <= s <= 1000,
        -COORD_LIMIT <= a <= COORD_LIMIT,
        b == a || b == a + 1000 || b == a - 1000,
    ensures
        r == spec_lerp_unit(a as int, b as int, s as int),
        a - 1000 <= r <= a + 1000,
{
    if b == a {
        a
    } else if b > a {
        proof {
            vstd::arithmetic::div_mod::lemma_div_multiples_vanish(s as int, 1000);
        }
        a + s
    } else {
        proof {
            vstd::arithmetic::div_mod::lemma_div_multiples_vanish(-(s as int), 1000);
            assert((b - a) * s == 1000 * (-(s as int))) by (nonlinear_arith)
                requires b == a - 1000;
        }
        a - s
    }
}

} // verus!
