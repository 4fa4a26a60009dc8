use bank_fx::commands::record_rate_command;
use bank_fx::currency::Currency;
use bank_fx::currency::choice_to_code;
use bank_fx::errors::CoreError;
use bank_fx::fixed::Fixed;
use bank_fx::rates::Rates;
use bank_fx::rates::UNSET_RATE_MICROS;

#[test]
fn fresh_table_has_unset_foreign_rates() {
    let r = Rates::new_unset();
    assert_eq!(r.get_rate(Currency::Usd), Fixed { micros: UNSET_RATE_MICROS });
    assert_eq!(r.get_rate(Currency::Cny), Fixed { micros: UNSET_RATE_MICROS });
    assert_eq!(r.get_rate(Currency::Php), Fixed { micros: 1_000_000 });
}

#[test]
fn base_rate_survives_set_attempts() {
    let mut r = Rates::new_unset();
    assert_eq!(
        r.set_rate(Currency::Php, Fixed { micros: 7_000_000 }),
        Err(CoreError::ImmutableRateRejected)
    );
    assert_eq!(r.get_rate(Currency::Php), Fixed { micros: 1_000_000 });
    assert_eq!(
        record_rate_command(&mut r, "1", "7"),
        Err(CoreError::ImmutableRateRejected)
    );
    assert_eq!(r.get_rate(Currency::Php), Fixed { micros: 1_000_000 });
    assert_eq!(r.get_rate(Currency::Usd), Fixed { micros: UNSET_RATE_MICROS });
}

#[test]
fn set_rate_stores_verbatim_and_touches_one_entry() {
    let mut r = Rates::new_unset();
    assert_eq!(r.set_rate(Currency::Usd, Fixed { micros: 58_000_000 }), Ok(()));
    assert_eq!(r.get_rate(Currency::Usd), Fixed { micros: 58_000_000 });
    assert_eq!(r.get_rate(Currency::Jpy), Fixed { micros: UNSET_RATE_MICROS });
}

#[test]
fn record_rate_by_menu_index() {
    let mut r = Rates::new_unset();
    assert_eq!(record_rate_command(&mut r, "2", "58"), Ok(Currency::Usd));
    assert_eq!(r.get_rate(Currency::Usd), Fixed { micros: 58_000_000 });
}

#[test]
fn record_rate_parses_fractions() {
    let mut r = Rates::new_unset();
    assert_eq!(record_rate_command(&mut r, "jpy", "1/2.5"), Ok(Currency::Jpy));
    assert_eq!(r.get_rate(Currency::Jpy), Fixed { micros: 400_000 });
}

#[test]
fn record_rate_rejections() {
    let mut r = Rates::new_unset();
    assert_eq!(record_rate_command(&mut r, "2", "x"), Err(CoreError::ParseFailure));
    assert_eq!(record_rate_command(&mut r, "2", "0"), Err(CoreError::RangeViolation));
    assert_eq!(record_rate_command(&mut r, "2", "-4"), Err(CoreError::RangeViolation));
    assert_eq!(record_rate_command(&mut r, "9", "58"), Err(CoreError::UnknownCode));
    // the rate is validated before the selector is resolved
    assert_eq!(record_rate_command(&mut r, "9", "x"), Err(CoreError::ParseFailure));
    assert_eq!(r.get_rate(Currency::Usd), Fixed { micros: UNSET_RATE_MICROS });
}

#[test]
fn resolve_menu_indices() {
    assert_eq!(choice_to_code("1"), Some(Currency::Php));
    assert_eq!(choice_to_code("2"), Some(Currency::Usd));
    assert_eq!(choice_to_code("3"), Some(Currency::Jpy));
    assert_eq!(choice_to_code("4"), Some(Currency::Gbp));
    assert_eq!(choice_to_code("5"), Some(Currency::Eur));
    assert_eq!(choice_to_code("6"), Some(Currency::Cny));
}

#[test]
fn resolve_symbols_any_case() {
    assert_eq!(choice_to_code("PHP"), Some(Currency::Php));
    assert_eq!(choice_to_code("php"), Some(Currency::Php));
    assert_eq!(choice_to_code("UsD"), Some(Currency::Usd));
    assert_eq!(choice_to_code("jPy"), Some(Currency::Jpy));
    assert_eq!(choice_to_code("gbp"), Some(Currency::Gbp));
    assert_eq!(choice_to_code(" eur "), Some(Currency::Eur));
    assert_eq!(choice_to_code("CNY"), Some(Currency::Cny));
}

#[test]
fn symbols_round_trip_through_resolution() {
    let all = [
        Currency::Php,
        Currency::Usd,
        Currency::Jpy,
        Currency::Gbp,
        Currency::Eur,
        Currency::Cny,
    ];
    for c in all {
        assert_eq!(choice_to_code(c.symbol()), Some(c));
    }
    assert_eq!(Currency::Usd.symbol(), "USD");
}

#[test]
fn resolve_rejects_everything_else() {
    assert_eq!(choice_to_code("0"), None);
    assert_eq!(choice_to_code("7"), None);
    assert_eq!(choice_to_code("XYZ"), None);
    assert_eq!(choice_to_code("PESO"), None);
    assert_eq!(choice_to_code(""), None);
    assert_eq!(choice_to_code("US"), None);
}
