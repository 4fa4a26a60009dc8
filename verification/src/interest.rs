//! Simple-interest projection: a constant per-day interest is computed once
//! from the starting balance and applied, without compounding, for each
//! projected day.

use vstd::prelude::*;

use crate::errors::CoreError;
use crate::fixed::Fixed;
use crate::fixed::MICROS_PER_CENT;
use crate::fixed::mul_div_round;
use crate::fixed::round_div;

verus! {

/// The default annual interest rate, 5%.
pub fn default_annual_rate() -> (r: Fixed)
    ensures
        r.micros == 50000,
{
    Fixed { micros: 50000 }
}

/// One projected day: the day number (1-based), the interest credited that
/// day, and the balance after it.
#[derive(Clone, Copy, PartialEq, Eq, Structural, Debug)]
pub struct InterestRow {
    pub day: i32,
    pub interest: Fixed,
    pub balance: Fixed,
}

/// The constant per-day interest in micro-units: the starting balance times
/// the annual rate, divided by 365, rounded to the nearest hundredth of a
/// unit.
pub open spec fn spec_daily_interest(balance: int, annual_rate: int) -> int {
    round_div(balance * annual_rate, 365 * 1000000 * (MICROS_PER_CENT as int)) * (
    MICROS_PER_CENT as int)
}

/// The per-day interest of a non-negative balance and rate is non-negative.
pub proof fn lemma_daily_interest_nonneg(balance: int, annual_rate: int)
    requires
        balance >= 0,
        annual_rate >= 0,
    ensures
        spec_daily_interest(balance, annual_rate) >= 0,
{
    let d = 365 * 1000000 * (MICROS_PER_CENT as int);
    assert(balance * annual_rate >= 0) by (nonlinear_arith)
        requires
            balance >= 0,
            annual_rate >= 0,
    ;
    let n = balance * annual_rate;
    assert((n + d / 2) / d >= 0) by (nonlinear_arith)
        requires
            n >= 0,
            d > 0,
    ;
}

/// The per-day interest, or `None` when it does not fit in an `i64`.
fn daily_interest(balance: Fixed, annual_rate: Fixed) -> (r: Option<i64>)
    requires
        balance.micros >= 0,
        annual_rate.micros >= 0,
    ensures
        ({
            let di = spec_daily_interest(balance.micros as int, annual_rate.micros as int);
            match r {
                Some(v) => v == di && di <= i64::MAX,
                None => di > i64::MAX,
            }
        }),
{
    proof {
        lemma_daily_interest_nonneg(balance.micros as int, annual_rate.micros as int);
    }
    match mul_div_round(balance.micros, annual_rate.micros, 3650000000000) {
        None => {
            proof {
                let cents = round_div(
                    balance.micros * annual_rate.micros,
                    365 * 1000000 * (MICROS_PER_CENT as int),
                );
                assert(cents * 10000 > i64::MAX) by (nonlinear_arith)
                    requires
                        cents > i64::MAX,
                ;
            }
            None
        },
        Some(cents) => {
            if cents > i64::MAX / 10000 {
                proof {
                    let c = cents as int;
                    assert(c * 10000 > i64::MAX) by (nonlinear_arith)
                        requires
                            c > i64::MAX as int / 10000,
                    ;
                }
                None
            } else {
                Some(cents * 10000)
            }
        },
    }
}

/// Project `days` days of simple interest over `balance` at `annual_rate`:
/// day `k` (1-based) credits the same per-day interest and shows the balance
/// `balance + k * interest`.  The day count must be positive, and the final
/// balance must stay representable.
pub fn project(balance: Fixed, annual_rate: Fixed, days: i32) -> (r: Result<
    Vec<InterestRow>,
    CoreError,
>)
    requires
        balance.micros >= 0,
        annual_rate.micros >= 0,
    ensures
        ({
            let di = spec_daily_interest(balance.micros as int, annual_rate.micros as int);
            &&& days <= 0 ==> r == Err::<Vec<InterestRow>, CoreError>(CoreError::RangeViolation)
            &&& days > 0 && balance.micros + days * di > i64::MAX ==> r == Err::<
                Vec<InterestRow>,
                CoreError,
            >(CoreError::Overflow)
            &&& days > 0 && balance.micros + days * di <= i64::MAX ==> (r matches Ok(rows)
                && rows@.len() == days && (forall|i: int|
                0 <= i < days ==> (#[trigger] rows@[i]).day == i + 1 && rows@[i].interest.micros
                    == di && rows@[i].balance.micros == balance.micros + (i + 1) * di))
        }),
{
    let ghost di = spec_daily_interest(balance.micros as int, annual_rate.micros as int);
    if days <= 0 {
        return Err(CoreError::RangeViolation);
    }
    proof {
        lemma_daily_interest_nonneg(balance.micros as int, annual_rate.micros as int);
    }
    let interest: i64 = match daily_interest(balance, annual_rate) {
        Some(v) => v,
        None => {
            proof {
                assert(days * di >= di) by (nonlinear_arith)
                    requires
                        days >= 1,
                        di >= 0,
                ;
            }
            return Err(CoreError::Overflow);
        },
    };
    proof {
        assert(0 <= (days as int) * (interest as int) <= 2147483647 * (i64::MAX as int))
            by (nonlinear_arith)
            requires
                0 < days <= 2147483647,
                0 <= interest <= i64::MAX,
        ;
    }
    let fin: i128 = (balance.micros as i128) + (days as i128) * (interest as i128);
    if fin > i64::MAX as i128 {
        return Err(CoreError::Overflow);
    }
    let mut rows: Vec<InterestRow> = Vec::new();
    let mut bal: i64 = balance.micros;
    let mut day: i32 = 0;
    while day < days
        invariant
            0 <= day <= days,
            interest == di,
            di >= 0,
            balance.micros + days * di <= i64::MAX,
            balance.micros >= 0,
            bal == balance.micros + day * di,
            rows@.len() == day,
            forall|i: int|
                0 <= i < day ==> (#[trigger] rows@[i]).day == i + 1 && rows@[i].interest.micros
                    == di && rows@[i].balance.micros == balance.micros + (i + 1) * di,
        decreases days - day,
    {
        proof {
            assert((day + 1) * di == day * di + di) by (nonlinear_arith);
            assert((day + 1) * di <= days * di) by (nonlinear_arith)
                requires
                    day + 1 <= days,
                    di >= 0,
            ;
            assert(day * di >= 0) by (nonlinear_arith)
                requires
                    day >= 0,
                    di >= 0,
            ;
        }
        bal = bal + interest;
        day = day + 1;
        rows.push(InterestRow { day, interest: Fixed { micros: interest }, balance: Fixed { micros: bal } });
    }
    Ok(rows)
}

} // verus!
