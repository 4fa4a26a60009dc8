//! Pivot conversion between two currencies: the amount is taken to the base
//! currency with the source rate and from the base currency with the target
//! rate, in one exactly-specified rounding step.

use vstd::prelude::*;

use crate::currency::Currency;
use crate::errors::CoreError;
use crate::fixed::Fixed;
use crate::fixed::mul_div_round;
use crate::fixed::round_div;
use crate::rates::Rates;
use crate::rates::UNSET_RATE_MICROS;
use crate::rates::spec_get_rate;

verus! {

/// Outcome of converting `amount` micro-units from `from` to `to` under the
/// rate table `t`: the amount must be non-negative, both rates must be set
/// (strictly positive), and the pivoted result `amount * rate_from /
/// rate_to`, rounded to the nearest micro-unit, must fit in an `i64`.
pub open spec fn spec_convert(t: Rates, from: Currency, to: Currency, amount: int) -> Result<
    int,
    CoreError,
> {
    if amount < 0 {
        Err(CoreError::RangeViolation)
    } else if spec_get_rate(t, from) <= 0 {
        Err(CoreError::RateUnset(from))
    } else if spec_get_rate(t, to) <= 0 {
        Err(CoreError::RateUnset(to))
    } else {
        let q = round_div(amount * spec_get_rate(t, from), spec_get_rate(t, to));
        if q > i64::MAX {
            Err(CoreError::Overflow)
        } else {
            Ok(q)
        }
    }
}

/// Convert `amount` from `from` to `to` using the base currency as pivot.
pub fn convert(t: &Rates, from: Currency, to: Currency, amount: Fixed) -> (r: Result<
    Fixed,
    CoreError,
>)
    ensures
        ({
            match spec_convert(*t, from, to, amount.micros as int) {
                Ok(v) => r matches Ok(f) && f.micros == v,
                Err(e) => r == Err::<Fixed, CoreError>(e),
            }
        }),
{
    if amount.micros < 0 {
        return Err(CoreError::RangeViolation);
    }
    let rate_from = t.get_rate(from);
    if rate_from.micros <= 0 {
        return Err(CoreError::RateUnset(from));
    }
    let rate_to = t.get_rate(to);
    if rate_to.micros <= 0 {
        return Err(CoreError::RateUnset(to));
    }
    match mul_div_round(amount.micros, rate_from.micros, rate_to.micros) {
        Some(v) => Ok(Fixed { micros: v }),
        None => Err(CoreError::Overflow),
    }
}

/// A conversion requested while either side's rate is still the initial
/// unset sentinel fails with the rate-unset signal naming that side, the
/// source side first.
pub proof fn lemma_convert_unset_rate(t: Rates, from: Currency, to: Currency, amount: int)
    requires
        amount >= 0,
    ensures
        spec_get_rate(t, from) == UNSET_RATE_MICROS ==> spec_convert(t, from, to, amount)
            == Err::<int, CoreError>(CoreError::RateUnset(from)),
        spec_get_rate(t, from) > 0 && spec_get_rate(t, to) == UNSET_RATE_MICROS ==> spec_convert(
            t,
            from,
            to,
            amount,
        ) == Err::<int, CoreError>(CoreError::RateUnset(to)),
{
}

} // verus!
