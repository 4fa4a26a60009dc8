//! The computational core of each menu transaction: parse the typed input,
//! validate it, and perform the state transition.  Rejection always happens
//! before mutation: on every error path the account and the rate table are
//! unchanged.

use vstd::prelude::*;

use crate::account::Account;
use crate::convert::convert;
use crate::convert::spec_convert;
use crate::currency::Currency;
use crate::currency::choice_to_code;
use crate::currency::spec_resolve;
use crate::errors::CoreError;
use crate::fixed::Fixed;
use crate::interest::InterestRow;
use crate::interest::project;
use crate::interest::spec_daily_interest;
use crate::parse::parse_days;
use crate::parse::parse_number;
use crate::parse::parse_rate_input;
use crate::parse::spec_parse_days;
use crate::parse::spec_parse_number;
use crate::parse::spec_parse_rate;
use crate::rates::Rates;
use crate::rates::spec_get_rate;

verus! {

/// Outcome of a deposit request: the typed amount must parse and be strictly
/// positive, and the new balance must stay representable; on success the new
/// balance is returned.
pub open spec fn spec_deposit_outcome(balance: int, input: Seq<char>) -> Result<int, CoreError> {
    match spec_parse_number(input) {
        None => Err(CoreError::ParseFailure),
        Some(v) => if v <= 0 {
            Err(CoreError::RangeViolation)
        } else if balance + v > i64::MAX {
            Err(CoreError::Overflow)
        } else {
            Ok(balance + v)
        },
    }
}

/// Parse and validate a deposit request, then credit the account.
pub fn deposit_command(account: &mut Account, input: &str) -> (r: Result<Fixed, CoreError>)
    requires
        old(account).wf(),
    ensures
        final (account).wf(),
        final (account).name == old(account).name,
        final (account).registered == old(account).registered,
        ({
            match spec_deposit_outcome(old(account).balance.micros as int, input@) {
                Ok(nb) => (r matches Ok(f) && f.micros == nb && final (account).balance.micros
                    == nb),
                Err(e) => r == Err::<Fixed, CoreError>(e) && final (account).balance == old(
                    account,
                ).balance,
            }
        }),
{
    match parse_number(input) {
        None => Err(CoreError::ParseFailure),
        Some(amount) => {
            if amount.micros <= 0 {
                Err(CoreError::RangeViolation)
            } else if amount.micros > i64::MAX - account.balance.micros {
                Err(CoreError::Overflow)
            } else {
                account.deposit(amount);
                Ok(account.balance)
            }
        },
    }
}

/// Outcome of a withdrawal request: the typed amount must parse, be strictly
/// positive, and not exceed the balance; on success the new balance is
/// returned.  An over-balance request is rejected with the balance untouched.
pub open spec fn spec_withdraw_outcome(balance: int, input: Seq<char>) -> Result<int, CoreError> {
    match spec_parse_number(input) {
        None => Err(CoreError::ParseFailure),
        Some(v) => if v <= 0 || v > balance {
            Err(CoreError::RangeViolation)
        } else {
            Ok(balance - v)
        },
    }
}

/// Parse and validate a withdrawal request, then debit the account.
pub fn withdraw_command(account: &mut Account, input: &str) -> (r: Result<Fixed, CoreError>)
    requires
        old(account).wf(),
    ensures
        final (account).wf(),
        final (account).name == old(account).name,
        final (account).registered == old(account).registered,
        ({
            match spec_withdraw_outcome(old(account).balance.micros as int, input@) {
                Ok(nb) => (r matches Ok(f) && f.micros == nb && final (account).balance.micros
                    == nb),
                Err(e) => r == Err::<Fixed, CoreError>(e) && final (account).balance == old(
                    account,
                ).balance,
            }
        }),
{
    match parse_number(input) {
        None => Err(CoreError::ParseFailure),
        Some(amount) => {
            if amount.micros <= 0 || amount.micros > account.balance.micros {
                Err(CoreError::RangeViolation)
            } else {
                account.withdraw(amount);
                Ok(account.balance)
            }
        },
    }
}

/// Outcome of recording an exchange rate: the typed rate must parse and be
/// strictly positive, the selector must resolve, and the base currency is
/// rejected as immutable.
pub open spec fn spec_record_outcome(choice: Seq<char>, rate_input: Seq<char>) -> Result<
    (Currency, int),
    CoreError,
> {
    match spec_parse_rate(rate_input) {
        None => Err(CoreError::ParseFailure),
        Some(v) => if v <= 0 {
            Err(CoreError::RangeViolation)
        } else {
            match spec_resolve(choice) {
                None => Err(CoreError::UnknownCode),
                Some(c) => if c == Currency::Php {
                    Err(CoreError::ImmutableRateRejected)
                } else {
                    Ok((c, v))
                },
            }
        },
    }
}

/// Parse and validate a rate-recording request, then store the rate.
pub fn record_rate_command(rates: &mut Rates, choice: &str, rate_input: &str) -> (r: Result<
    Currency,
    CoreError,
>)
    ensures
        ({
            match spec_record_outcome(choice@, rate_input@) {
                Ok(cv) => (r matches Ok(c) && c == cv.0 && spec_get_rate(*final (rates), cv.0)
                    == cv.1 && (forall|d: Currency|
                    d != cv.0 ==> #[trigger] spec_get_rate(*final (rates), d) == spec_get_rate(
                        *old(rates),
                        d,
                    ))),
                Err(e) => r == Err::<Currency, CoreError>(e) && *final (rates) == *old(rates),
            }
        }),
{
    let v = match parse_rate_input(rate_input) {
        None => {
            return Err(CoreError::ParseFailure);
        },
        Some(f) => f,
    };
    if v.micros <= 0 {
        return Err(CoreError::RangeViolation);
    }
    let c = match choice_to_code(choice) {
        None => {
            return Err(CoreError::UnknownCode);
        },
        Some(c) => c,
    };
    match rates.set_rate(c, v) {
        Ok(_) => Ok(c),
        Err(e) => Err(e),
    }
}

/// Outcome of a currency-exchange request, with the checks in the order the
/// transaction performs them: source selector, amount, source rate, target
/// selector, then the pivot conversion itself.
pub open spec fn spec_exchange_outcome(
    t: Rates,
    source: Seq<char>,
    amount: Seq<char>,
    target: Seq<char>,
) -> Result<int, CoreError> {
    match spec_resolve(source) {
        None => Err(CoreError::UnknownCode),
        Some(from) => match spec_parse_number(amount) {
            None => Err(CoreError::ParseFailure),
            Some(a) => if a < 0 {
                Err(CoreError::RangeViolation)
            } else if spec_get_rate(t, from) <= 0 {
                Err(CoreError::RateUnset(from))
            } else {
                match spec_resolve(target) {
                    None => Err(CoreError::UnknownCode),
                    Some(to) => spec_convert(t, from, to, a),
                }
            },
        },
    }
}

/// Parse and validate a currency-exchange request, then convert the amount
/// through the base currency.
pub fn exchange_command(rates: &Rates, source: &str, amount: &str, target: &str) -> (r: Result<
    Fixed,
    CoreError,
>)
    ensures
        ({
            match spec_exchange_outcome(*rates, source@, amount@, target@) {
                Ok(v) => (r matches Ok(f) && f.micros == v),
                Err(e) => r == Err::<Fixed, CoreError>(e),
            }
        }),
{
    let from = match choice_to_code(source) {
        None => {
            return Err(CoreError::UnknownCode);
        },
        Some(c) => c,
    };
    let a = match parse_number(amount) {
        None => {
            return Err(CoreError::ParseFailure);
        },
        Some(f) => f,
    };
    if a.micros < 0 {
        return Err(CoreError::RangeViolation);
    }
    let rate_from = rates.get_rate(from);
    if rate_from.micros <= 0 {
        return Err(CoreError::RateUnset(from));
    }
    let to = match choice_to_code(target) {
        None => {
            return Err(CoreError::UnknownCode);
        },
        Some(c) => c,
    };
    convert(rates, from, to, a)
}

/// Parse and validate an interest-projection request, then project the
/// account's balance over the requested days at `annual_rate`.
pub fn interest_command(account: &Account, annual_rate: Fixed, days_input: &str) -> (r: Result<
    Vec<InterestRow>,
    CoreError,
>)
    requires
        account.wf(),
        annual_rate.micros >= 0,
    ensures
        ({
            let di = spec_daily_interest(account.balance.micros as int, annual_rate.micros as int);
            match spec_parse_days(days_input@) {
                None => r == Err::<Vec<InterestRow>, CoreError>(CoreError::ParseFailure),
                Some(d) => ({
                    &&& d <= 0 ==> r == Err::<Vec<InterestRow>, CoreError>(
                        CoreError::RangeViolation,
                    )
                    &&& d > 0 && account.balance.micros + d * di > i64::MAX ==> r == Err::<
                        Vec<InterestRow>,
                        CoreError,
                    >(CoreError::Overflow)
                    &&& d > 0 && account.balance.micros + d * di <= i64::MAX ==> (r matches Ok(rows)
                        && rows@.len() == d && (forall|i: int|
                        0 <= i < d ==> (#[trigger] rows@[i]).day == i + 1
                            && rows@[i].interest.micros == di && rows@[i].balance.micros
                            == account.balance.micros + (i + 1) * di))
                }),
            }
        }),
{
    let days = match parse_days(days_input) {
        None => {
            return Err(CoreError::ParseFailure);
        },
        Some(d) => d,
    };
    if days <= 0 {
        return Err(CoreError::RangeViolation);
    }
    project(account.balance, annual_rate, days)
}

} // verus!
