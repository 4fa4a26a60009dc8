//! The exchange-rate table: one rate per foreign currency, expressed as base
//! currency units per one unit of the foreign currency.  The base currency's
//! own rate is fixed at 1.0 and cannot be recorded; foreign rates start at a
//! negative sentinel meaning "unset".

use vstd::prelude::*;

use crate::currency::Currency;
use crate::errors::CoreError;
use crate::fixed::Fixed;
use crate::fixed::MICROS_PER_UNIT;

verus! {

/// The sentinel stored for a foreign rate that was never recorded: -1.0.
pub const UNSET_RATE_MICROS: i64 = -1000000;

/// Exchange rates for the five foreign currencies, in base-currency
/// micro-units per one unit of the foreign currency.  The base currency's
/// rate is not stored: it is the constant 1.0.
#[derive(Clone, Copy, PartialEq, Eq, Structural, Debug)]
pub struct Rates {
    pub usd: Fixed,
    pub jpy: Fixed,
    pub gbp: Fixed,
    pub eur: Fixed,
    pub cny: Fixed,
}

/// The stored rate of a currency, in micro-units: exactly 1.0 for the base
/// currency, the recorded field otherwise.
pub open spec fn spec_get_rate(t: Rates, c: Currency) -> int {
    match c {
        Currency::Php => MICROS_PER_UNIT as int,
        Currency::Usd => t.usd.micros as int,
        Currency::Jpy => t.jpy.micros as int,
        Currency::Gbp => t.gbp.micros as int,
        Currency::Eur => t.eur.micros as int,
        Currency::Cny => t.cny.micros as int,
    }
}

impl Rates {
    /// A rate table with the given foreign rates.
    pub fn new(usd: Fixed, jpy: Fixed, gbp: Fixed, eur: Fixed, cny: Fixed) -> (r: Rates)
        ensures
            r.usd == usd,
            r.jpy == jpy,
            r.gbp == gbp,
            r.eur == eur,
            r.cny == cny,
    {
        Rates { usd, jpy, gbp, eur, cny }
    }

    /// A rate table with every foreign rate at the unset sentinel.
    pub fn new_unset() -> (r: Rates)
        ensures
            forall|c: Currency|
                c != Currency::Php ==> #[trigger] spec_get_rate(r, c) == UNSET_RATE_MICROS,
    {
        let u = Fixed { micros: UNSET_RATE_MICROS };
        Rates { usd: u, jpy: u, gbp: u, eur: u, cny: u }
    }

    /// The stored rate of `c`: always exactly 1.0 for the base currency.
    pub fn get_rate(&self, c: Currency) -> (r: Fixed)
        ensures
            r.micros == spec_get_rate(*self, c),
    {
        match c {
            Currency::Php => Fixed { micros: MICROS_PER_UNIT },
            Currency::Usd => self.usd,
            Currency::Jpy => self.jpy,
            Currency::Gbp => self.gbp,
            Currency::Eur => self.eur,
            Currency::Cny => self.cny,
        }
    }

    /// Record `new_rate` for `c`.  The base currency is rejected and nothing
    /// changes; any other currency's rate is stored verbatim (positivity is
    /// the caller's check), leaving every other rate untouched.
    pub fn set_rate(&mut self, c: Currency, new_rate: Fixed) -> (r: Result<(), CoreError>)
        ensures
            c == Currency::Php ==> r == Err::<(), CoreError>(CoreError::ImmutableRateRejected)
                && *final (self) == *old(self),
            c != Currency::Php ==> r == Ok::<(), CoreError>(()) && spec_get_rate(*final (self), c)
                == new_rate.micros && (forall|d: Currency|
                d != c ==> #[trigger] spec_get_rate(*final (self), d) == spec_get_rate(
                    *old(self),
                    d,
                )),
    {
        match c {
            Currency::Php => Err(CoreError::ImmutableRateRejected),
            Currency::Usd => {
                self.usd = new_rate;
                Ok(())
            },
            Currency::Jpy => {
                self.jpy = new_rate;
                Ok(())
            },
            Currency::Gbp => {
                self.gbp = new_rate;
                Ok(())
            },
            Currency::Eur => {
                self.eur = new_rate;
                Ok(())
            },
            Currency::Cny => {
                self.cny = new_rate;
                Ok(())
            },
        }
    }
}

/// The base currency's rate reads back as exactly 1.0 from every rate table,
/// whatever was attempted against it.
pub proof fn lemma_base_rate_fixed(t: Rates)
    ensures
        spec_get_rate(t, Currency::Php) == MICROS_PER_UNIT,
{
}

} // verus!
