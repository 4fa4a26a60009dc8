use bank_fx::account::Account;
use bank_fx::commands::deposit_command;
use bank_fx::commands::withdraw_command;
use bank_fx::errors::CoreError;
use bank_fx::fixed::Fixed;

#[test]
fn new_account_is_blank() {
    let a = Account::new();
    assert_eq!(a.name, "");
    assert_eq!(a.balance, Fixed { micros: 0 });
    assert!(!a.registered);
    assert!(!a.is_registered());
}

#[test]
fn register_sets_name_and_flag() {
    let mut a = Account::new();
    a.register("Alice");
    assert_eq!(a.name, "Alice");
    assert!(a.is_registered());
    assert_eq!(a.balance, Fixed { micros: 0 });
}

#[test]
fn edit_name_keeps_registration() {
    let mut a = Account::new();
    a.register("Alice");
    a.edit_name("Bob");
    assert_eq!(a.name, "Bob");
    assert!(a.is_registered());
}

#[test]
fn raw_mutators_shift_balance_exactly() {
    let mut a = Account::new();
    a.deposit(Fixed { micros: 123_456 });
    assert_eq!(a.balance, Fixed { micros: 123_456 });
    a.withdraw(Fixed { micros: 23_456 });
    assert_eq!(a.balance, Fixed { micros: 100_000 });
}

#[test]
fn deposit_increases_balance_by_amount() {
    let mut a = Account::new();
    a.register("Alice");
    let r = deposit_command(&mut a, "100");
    assert_eq!(r, Ok(Fixed { micros: 100_000_000 }));
    assert_eq!(a.balance, Fixed { micros: 100_000_000 });
    let r2 = deposit_command(&mut a, "0.25");
    assert_eq!(r2, Ok(Fixed { micros: 100_250_000 }));
}

#[test]
fn deposit_rejects_non_positive() {
    let mut a = Account::new();
    assert_eq!(deposit_command(&mut a, "0"), Err(CoreError::RangeViolation));
    assert_eq!(deposit_command(&mut a, "-5"), Err(CoreError::RangeViolation));
    assert_eq!(a.balance, Fixed { micros: 0 });
}

#[test]
fn deposit_rejects_junk() {
    let mut a = Account::new();
    assert_eq!(deposit_command(&mut a, "abc"), Err(CoreError::ParseFailure));
    assert_eq!(a.balance, Fixed { micros: 0 });
}

#[test]
fn deposit_overflow_leaves_balance() {
    let mut a = Account::new();
    deposit_command(&mut a, "9000000000000").unwrap();
    let before = a.balance;
    assert_eq!(deposit_command(&mut a, "9000000000000"), Err(CoreError::Overflow));
    assert_eq!(a.balance, before);
}

#[test]
fn withdraw_decreases_balance_by_amount() {
    let mut a = Account::new();
    deposit_command(&mut a, "100").unwrap();
    let r = withdraw_command(&mut a, "40.25");
    assert_eq!(r, Ok(Fixed { micros: 59_750_000 }));
    assert_eq!(a.balance, Fixed { micros: 59_750_000 });
}

#[test]
fn withdraw_whole_balance_reaches_zero() {
    let mut a = Account::new();
    deposit_command(&mut a, "75.5").unwrap();
    assert_eq!(withdraw_command(&mut a, "75.5"), Ok(Fixed { micros: 0 }));
    assert_eq!(a.balance, Fixed { micros: 0 });
}

#[test]
fn over_balance_withdrawal_rejected_unchanged() {
    let mut a = Account::new();
    deposit_command(&mut a, "50").unwrap();
    assert_eq!(withdraw_command(&mut a, "50.000001"), Err(CoreError::RangeViolation));
    assert_eq!(a.balance, Fixed { micros: 50_000_000 });
}

#[test]
fn withdraw_rejects_non_positive_and_junk() {
    let mut a = Account::new();
    deposit_command(&mut a, "50").unwrap();
    assert_eq!(withdraw_command(&mut a, "0"), Err(CoreError::RangeViolation));
    assert_eq!(withdraw_command(&mut a, "-1"), Err(CoreError::RangeViolation));
    assert_eq!(withdraw_command(&mut a, "x"), Err(CoreError::ParseFailure));
    assert_eq!(a.balance, Fixed { micros: 50_000_000 });
}
