//! Single-user banking and currency-exchange core.
//!
//! The library models one bank account, a table of exchange rates pivoted on
//! the Philippine peso, free-form numeric input parsing, and simple-interest
//! projection.  All quantities (balances, amounts, rates) are fixed-point
//! values counted in millionths of a unit, so every computation is exact
//! integer arithmetic with explicitly specified rounding.

pub mod account;
pub mod commands;
pub mod currency;
pub mod convert;
pub mod errors;
pub mod fixed;
pub mod interest;
pub mod parse;
pub mod rates;
pub mod text;
