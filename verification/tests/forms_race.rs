use ferrobank::bank::{Bank, RaceOutcome};
use ferrobank::errors::AppError;
use ferrobank::forms::{
    adjustment_delta, customer_account_kind, loan_principal, loan_rate_bp, loan_term, new_limit,
    race_check, repayment_amount, staff_open_check, transfer_amount,
};
use ferrobank::models::{AccountType, Role};
use ferrobank::session::{Activity, ActivityGuard, Gate, RequireRole};
use ferrobank::telegram::{help_text, start_help, unlink_notice, OtpChannel, ScreenOtp};

const T0: i64 = 1_700_000_000_000_000;

#[test]
fn form_values_read_or_explain() {
    assert_eq!(customer_account_kind("savings"), Ok(AccountType::Savings));
    assert_eq!(customer_account_kind("gold").unwrap_err(), "Please choose Savings or Checking.");
    assert_eq!(transfer_amount(" 25.00 "), Ok(2_500));
    assert_eq!(transfer_amount("ten").unwrap_err(), "Amount must be a number like 25.00.");
    assert_eq!(repayment_amount("x").unwrap_err(), "Repayment must be a number like 100.00.");
    assert_eq!(loan_principal("5000"), Ok(500_000));
    assert_eq!(loan_principal("").unwrap_err(), "Principal must be a number like 5000.00.");
    assert_eq!(loan_rate_bp("5.25"), Ok(525));
    assert_eq!(loan_rate_bp("five").unwrap_err(), "Interest rate must be a number like 5.25.");
    assert_eq!(loan_term(" 12 "), Ok(12));
    assert_eq!(loan_term("-3"), Ok(-3));
    assert_eq!(loan_term("+7"), Ok(7));
    assert_eq!(loan_term("2147483647"), Ok(i32::MAX));
    assert_eq!(loan_term("-2147483648"), Ok(i32::MIN));
    assert_eq!(loan_term("2147483648").unwrap_err(), "Term must be a whole number of months.");
    assert_eq!(loan_term("1.5").unwrap_err(), "Term must be a whole number of months.");
    assert_eq!(loan_term("-").unwrap_err(), "Term must be a whole number of months.");
    assert_eq!(new_limit("8000"), Ok(800_000));
    assert_eq!(new_limit("0").unwrap_err(), "The limit must be a positive number like 8000.00.");
    assert_eq!(adjustment_delta("-50").ok(), Some(-5_000));
    assert!(matches!(adjustment_delta("abc"), Err(AppError::BadRequest(m)) if m == "adjustment must be a number like 50.00 or -50.00"));
}

#[test]
fn staff_open_only_for_customers() {
    assert_eq!(staff_open_check("checking", Some(Role::Customer)).ok(), Some(AccountType::Checking));
    assert!(matches!(staff_open_check("gold", Some(Role::Customer)), Err(AppError::BadRequest(m)) if m == "choose savings or checking"));
    assert!(matches!(staff_open_check("savings", None), Err(AppError::BadRequest(m)) if m == "that user does not exist"));
    assert!(matches!(staff_open_check("savings", Some(Role::Teller)), Err(AppError::BadRequest(m)) if m == "accounts can only be opened for customers"));
}

#[test]
fn race_inputs_are_checked() {
    assert_eq!(race_check("10", 5, 1, 2), Ok(1_000));
    assert_eq!(race_check("0", 5, 1, 2).unwrap_err(), "Amount must be a positive number like 10.00.");
    assert_eq!(race_check("10", 11, 1, 2).unwrap_err(), "Use 1-10 tasks and two different accounts.");
    assert_eq!(race_check("10", 3, 2, 2).unwrap_err(), "Use 1-10 tasks and two different accounts.");
}

#[test]
fn race_demo_conserves_money() {
    let mut bank = Bank::new();
    let from = bank.ledger.open_account(1, AccountType::Checking, true, 500_000, 43_200).unwrap();
    let to = bank.ledger.open_account(2, AccountType::Checking, true, 500_000, 43_200).unwrap();
    bank.ledger.adjust_balance(from, 3_000).unwrap();
    let outcomes = bank.race_demo(1, from, to, 1_000, 5, T0, &mut ferrobank::effects::Effects::new()).ok().unwrap();
    assert_eq!(outcomes.len(), 5);
    let completed = outcomes.iter().filter(|o| matches!(o, RaceOutcome::Completed)).count();
    assert_eq!(completed, 3);
    let from_balance = bank.ledger.account(from).unwrap().balance;
    let to_balance = bank.ledger.account(to).unwrap().balance;
    assert_eq!(from_balance, 0);
    assert_eq!(to_balance, 3_000);
    assert_eq!(from_balance + to_balance, 3_000);
}

#[test]
fn middlewares_decide_like_their_guards() {
    let m = RequireRole(Role::Admin).new_transform(7u8);
    assert_eq!(m.service, 7);
    assert_eq!(m.decide(Some(Role::Teller)), Gate::Forbidden);
    assert_eq!(m.decide(Some(Role::Admin)), Gate::Pass);
    let a = ActivityGuard.new_transform(());
    assert_eq!(a.decide(Role::Customer, Some(T0), T0 + 300_000_001, false, true, "/"), Activity::Expired);
}

#[test]
fn screen_channel_never_delivers() {
    let ch = ScreenOtp;
    assert!(!ch.send_otp(1, "123456"));
    assert!(!ch.send_note(1, "hello"));
    assert!(start_help().starts_with("Open FerroBank"));
    assert!(help_text().contains("/unlink"));
    assert!(unlink_notice().contains("24 hours"));
}
