//! The failure signals of the core.  Every operation reports failure through
//! one of these values; none of them is fatal to the caller.

use vstd::prelude::*;

use crate::currency::Currency;

verus! {

/// A recoverable failure of a core operation.
#[derive(Clone, Copy, PartialEq, Eq, Structural, Debug)]
pub enum CoreError {
    /// The input text is not a valid number or fraction.
    ParseFailure,
    /// A parsed value violates a domain constraint: a non-positive deposit,
    /// withdrawal, rate or day count, an over-balance withdrawal, or a
    /// negative exchange amount.
    RangeViolation,
    /// A currency selector does not resolve to any canonical code.
    UnknownCode,
    /// An attempt to set the base currency's rate, which is fixed.
    ImmutableRateRejected,
    /// A conversion was requested against a rate that was never recorded (or
    /// is otherwise not strictly positive); carries the offending currency.
    RateUnset(Currency),
    /// A result does not fit in the fixed-point representation.
    Overflow,
}
} // verus!
