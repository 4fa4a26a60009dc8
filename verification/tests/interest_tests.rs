use bank_fx::account::Account;
use bank_fx::commands::deposit_command;
use bank_fx::commands::interest_command;
use bank_fx::errors::CoreError;
use bank_fx::fixed::Fixed;
use bank_fx::fixed::round2_cents;
use bank_fx::interest::InterestRow;
use bank_fx::interest::default_annual_rate;
use bank_fx::interest::project;

#[test]
fn three_days_at_five_percent() {
    // 1000 * 0.05 / 365 = 0.136986..., rounded to the cent: 0.14 per day
    let rows = project(Fixed { micros: 1_000_000_000 }, default_annual_rate(), 3).unwrap();
    assert_eq!(
        rows,
        vec![
            InterestRow {
                day: 1,
                interest: Fixed { micros: 140_000 },
                balance: Fixed { micros: 1_000_140_000 },
            },
            InterestRow {
                day: 2,
                interest: Fixed { micros: 140_000 },
                balance: Fixed { micros: 1_000_280_000 },
            },
            InterestRow {
                day: 3,
                interest: Fixed { micros: 140_000 },
                balance: Fixed { micros: 1_000_420_000 },
            },
        ]
    );
    assert_eq!(round2_cents(rows[0].balance), 100_014);
}

#[test]
fn interest_is_constant_and_non_compounding() {
    let rows = project(Fixed { micros: 1_000_000_000 }, default_annual_rate(), 365).unwrap();
    assert_eq!(rows.len(), 365);
    for (i, row) in rows.iter().enumerate() {
        assert_eq!(row.day, (i + 1) as i32);
        assert_eq!(row.interest, Fixed { micros: 140_000 });
        assert_eq!(
            row.balance,
            Fixed { micros: 1_000_000_000 + (i as i64 + 1) * 140_000 }
        );
    }
}

#[test]
fn zero_balance_earns_nothing() {
    let rows = project(Fixed { micros: 0 }, default_annual_rate(), 2).unwrap();
    assert_eq!(rows[1].interest, Fixed { micros: 0 });
    assert_eq!(rows[1].balance, Fixed { micros: 0 });
}

#[test]
fn non_positive_day_count_rejected() {
    assert_eq!(
        project(Fixed { micros: 1_000_000_000 }, default_annual_rate(), 0),
        Err(CoreError::RangeViolation)
    );
    assert_eq!(
        project(Fixed { micros: 1_000_000_000 }, default_annual_rate(), -3),
        Err(CoreError::RangeViolation)
    );
}

#[test]
fn interest_command_parses_and_projects() {
    let mut a = Account::new();
    a.register("Alice");
    deposit_command(&mut a, "1000").unwrap();
    let rows = interest_command(&a, default_annual_rate(), " 3 ").unwrap();
    assert_eq!(rows.len(), 3);
    assert_eq!(rows[2].balance, Fixed { micros: 1_000_420_000 });
}

#[test]
fn interest_command_rejections() {
    let mut a = Account::new();
    deposit_command(&mut a, "1000").unwrap();
    assert_eq!(
        interest_command(&a, default_annual_rate(), "0"),
        Err(CoreError::RangeViolation)
    );
    assert_eq!(
        interest_command(&a, default_annual_rate(), "-2"),
        Err(CoreError::RangeViolation)
    );
    assert_eq!(
        interest_command(&a, default_annual_rate(), "2.5"),
        Err(CoreError::ParseFailure)
    );
    assert_eq!(
        interest_command(&a, default_annual_rate(), "abc"),
        Err(CoreError::ParseFailure)
    );
}
