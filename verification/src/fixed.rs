//! Fixed-point numbers: every quantity in the library (balances, amounts,
//! exchange rates, interest) is a count of millionths of a unit stored in an
//! `i64`.  Division rounds to the nearest representable value, ties away from
//! zero, and each rounding step is specified exactly.

use vstd::prelude::*;

verus! {

/// Number of micro-units in one whole unit.
pub const MICROS_PER_UNIT: i64 = 1000000;

/// Number of micro-units in one hundredth of a unit.
pub const MICROS_PER_CENT: i64 = 10000;

/// A fixed-point quantity: `micros` millionths of a unit.
#[derive(Clone, Copy, PartialEq, Eq, Structural, Debug)]
pub struct Fixed {
    pub micros: i64,
}

/// Magnitude of an integer.
pub open spec fn mag(n: int) -> int {
    if n >= 0 {
        n
    } else {
        -n
    }
}

/// `n / d` rounded to the nearest integer, ties away from zero.
/// Meaningful for `d > 0`.
pub open spec fn round_div(n: int, d: int) -> int
    recommends
        d > 0,
{
    if n >= 0 {
        (n + d / 2) / d
    } else {
        -((-n + d / 2) / d)
    }
}

/// Signed fixed-point quotient: the value `a / b` (both in micro-units)
/// expressed in micro-units, rounded to nearest, ties away from zero.
/// Meaningful for `b != 0`.
pub open spec fn fixed_div_micros(a: int, b: int) -> int
    recommends
        b != 0,
{
    if (a < 0) != (b < 0) {
        -round_div(mag(a) * (MICROS_PER_UNIT as int), mag(b))
    } else {
        round_div(mag(a) * (MICROS_PER_UNIT as int), mag(b))
    }
}

/// Nearest-cent rounding of a non-negative quantity: the value in hundredths
/// of a unit, rounded to nearest, ties up.
pub fn round2_cents(v: Fixed) -> (r: i64)
    requires
        v.micros >= 0,
    ensures
        r == round_div(v.micros as int, MICROS_PER_CENT as int),
        r >= 0,
{
    let n: u64 = (v.micros as u64) + 5000;
    let q: u64 = n / 10000;
    q as i64
}

/// `round_div(a * b, d)` for non-negative operands, reporting `None` when the
/// rounded quotient does not fit in an `i64`.
pub fn mul_div_round(a: i64, b: i64, d: i64) -> (r: Option<i64>)
    requires
        a >= 0,
        b >= 0,
        d > 0,
    ensures
        ({
            let q = round_div(a * b, d as int);
            match r {
                Some(v) => v == q && q <= i64::MAX,
                None => q > i64::MAX,
            }
        }),
{
    proof {
        assert(a * b <= i64::MAX * i64::MAX) by (nonlinear_arith)
            requires
                0 <= a <= i64::MAX,
                0 <= b <= i64::MAX,
        ;
    }
    let n: u128 = (a as u128) * (b as u128);
    let du: u128 = d as u128;
    let q: u128 = (n + du / 2) / du;
    if q > i64::MAX as u128 {
        None
    } else {
        Some(q as i64)
    }
}

/// Signed fixed-point division, reporting `None` when the rounded quotient's
/// magnitude does not fit in an `i64`.
pub fn fixed_div(a: Fixed, b: Fixed) -> (r: Option<Fixed>)
    requires
        b.micros != 0,
    ensures
        ({
            let q = fixed_div_micros(a.micros as int, b.micros as int);
            match r {
                Some(v) => v.micros == q && mag(q) <= i64::MAX,
                None => mag(q) > i64::MAX,
            }
        }),
{
    let ma: u128 = if a.micros < 0 {
        (-(a.micros as i128)) as u128
    } else {
        a.micros as u128
    };
    let mb: u128 = if b.micros < 0 {
        (-(b.micros as i128)) as u128
    } else {
        b.micros as u128
    };
    assert(ma == mag(a.micros as int));
    assert(mb == mag(b.micros as int));
    let n: u128 = ma * 1000000;
    let q: u128 = (n + mb / 2) / mb;
    assert(q == round_div(mag(a.micros as int) * (MICROS_PER_UNIT as int), mag(b.micros as int)));
    if q > i64::MAX as u128 {
        None
    } else {
        let qi: i64 = q as i64;
        if (a.micros < 0) != (b.micros < 0) {
            Some(Fixed { micros: -qi })
        } else {
            Some(Fixed { micros: qi })
        }
    }
}

} // verus!
