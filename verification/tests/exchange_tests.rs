use bank_fx::commands::exchange_command;
use bank_fx::convert::convert;
use bank_fx::currency::Currency;
use bank_fx::errors::CoreError;
use bank_fx::fixed::Fixed;
use bank_fx::fixed::round2_cents;
use bank_fx::rates::Rates;

fn table_usd_eur() -> Rates {
    let mut r = Rates::new_unset();
    r.set_rate(Currency::Usd, Fixed { micros: 58_000_000 }).unwrap();
    r.set_rate(Currency::Eur, Fixed { micros: 61_000_000 }).unwrap();
    r
}

#[test]
fn usd_to_eur_via_base_pivot() {
    let r = table_usd_eur();
    // 100 * 58.0 / 61.0 = 95.081967...
    let out = exchange_command(&r, "USD", "100", "EUR").unwrap();
    assert_eq!(out, Fixed { micros: 95_081_967 });
    assert_eq!(round2_cents(out), 9508);
}

#[test]
fn base_currency_is_always_a_valid_pivot_side() {
    let r = table_usd_eur();
    // 100 USD to PHP: 100 * 58.0 / 1.0
    assert_eq!(
        exchange_command(&r, "2", "100", "1"),
        Ok(Fixed { micros: 5_800_000_000 })
    );
    // 58 PHP to USD: 58 * 1.0 / 58.0
    assert_eq!(
        exchange_command(&r, "1", "58", "2"),
        Ok(Fixed { micros: 1_000_000 })
    );
}

#[test]
fn zero_amount_converts_to_zero() {
    let r = table_usd_eur();
    assert_eq!(exchange_command(&r, "USD", "0", "EUR"), Ok(Fixed { micros: 0 }));
}

#[test]
fn unset_source_rate_fails() {
    let r = Rates::new_unset();
    assert_eq!(
        exchange_command(&r, "USD", "100", "EUR"),
        Err(CoreError::RateUnset(Currency::Usd))
    );
}

#[test]
fn unset_target_rate_fails() {
    let mut r = Rates::new_unset();
    r.set_rate(Currency::Usd, Fixed { micros: 58_000_000 }).unwrap();
    assert_eq!(
        exchange_command(&r, "USD", "100", "EUR"),
        Err(CoreError::RateUnset(Currency::Eur))
    );
}

#[test]
fn convert_checks_source_rate_first() {
    let r = Rates::new_unset();
    assert_eq!(
        convert(&r, Currency::Usd, Currency::Eur, Fixed { micros: 1_000_000 }),
        Err(CoreError::RateUnset(Currency::Usd))
    );
}

#[test]
fn negative_amount_rejected() {
    let r = table_usd_eur();
    assert_eq!(
        exchange_command(&r, "USD", "-1", "EUR"),
        Err(CoreError::RangeViolation)
    );
    assert_eq!(
        convert(&r, Currency::Usd, Currency::Eur, Fixed { micros: -1 }),
        Err(CoreError::RangeViolation)
    );
}

#[test]
fn bad_selectors_and_amounts_rejected_in_order() {
    let r = table_usd_eur();
    assert_eq!(exchange_command(&r, "XXX", "100", "EUR"), Err(CoreError::UnknownCode));
    assert_eq!(exchange_command(&r, "USD", "pqr", "EUR"), Err(CoreError::ParseFailure));
    assert_eq!(exchange_command(&r, "USD", "100", "XXX"), Err(CoreError::UnknownCode));
    // an unset source rate is reported before the target selector is read
    let u = Rates::new_unset();
    assert_eq!(
        exchange_command(&u, "USD", "100", "XXX"),
        Err(CoreError::RateUnset(Currency::Usd))
    );
}

#[test]
fn oversized_result_overflows() {
    let mut r = Rates::new_unset();
    r.set_rate(Currency::Usd, Fixed { micros: i64::MAX }).unwrap();
    r.set_rate(Currency::Eur, Fixed { micros: 1 }).unwrap();
    assert_eq!(
        convert(&r, Currency::Usd, Currency::Eur, Fixed { micros: 2 }),
        Err(CoreError::Overflow)
    );
}
