use ferrobank::effects::Effects;
use ferrobank::telegram::ScreenOtp;
use ferrobank::bank::Bank;
use ferrobank::errors::AppError;
use ferrobank::ledger::Ledger;
use ferrobank::models::{AccountStatus, AccountType, Role, TransferStatus};

const T0: i64 = 1_700_000_000_000_000;
const MINUTE: i64 = 60_000_000;
const LIMIT: i64 = 500_000;

/// Two customers (ids 1 and 2), each with one active account; the
/// sender's is funded with `cents`.
fn rig(cents: i64) -> (Bank, i64, i64) {
    let mut bank = Bank::new();
    let from = bank.ledger.open_account(1, AccountType::Checking, true, LIMIT, 43_200).unwrap();
    let to = bank.ledger.open_account(2, AccountType::Checking, true, LIMIT, 43_200).unwrap();
    if cents > 0 {
        bank.ledger.adjust_balance(from, cents).unwrap();
    }
    (bank, from, to)
}

fn balance(l: &Ledger, id: i64) -> i64 {
    l.account(id).unwrap().balance
}

fn message(e: &AppError) -> String {
    match e {
        AppError::NotFound(m) | AppError::BadRequest(m) | AppError::Conflict(m) | AppError::Internal(m) => m.clone(),
        AppError::Unauthorized => "unauthorized".to_string(),
        AppError::Forbidden => "forbidden".to_string(),
    }
}

#[test]
fn concurrent_transfers_never_overdraw_or_lose_money() {
    let (mut bank, from, to) = rig(3_000);
    let mut created = Vec::new();
    let mut rejected = 0usize;
    for k in 0..5 {
        match bank.create_transfer(1, Role::Customer, from, to, 1_000, None, T0 + k, &ScreenOtp, &mut Effects::new()) {
            Ok(c) => created.push(c),
            Err(_) => rejected += 1,
        }
    }
    let mut completed = 0usize;
    for c in &created {
        match bank.ledger.confirm_typed(1, c.transfer_id, T0 + 10, &c.otp, &mut Effects::new()) {
            Ok(TransferStatus::Completed) => completed += 1,
            _ => rejected += 1,
        }
    }
    assert_eq!(completed, 3, "exactly three $10 transfers fit in $30");
    assert_eq!(rejected, 2, "the two losers must be rejected, not lost");
    assert_eq!(balance(&bank.ledger, from), 0, "balance never goes negative");
    assert_eq!(balance(&bank.ledger, to), 3_000, "every dollar debited arrived - none lost, none duplicated");
}

#[test]
fn confirming_the_same_transfer_twice_moves_money_exactly_once() {
    let (mut bank, from, to) = rig(5_000);
    let created = match bank.create_transfer(1, Role::Customer, from, to, 2_000, None, T0, &ScreenOtp, &mut Effects::new()) {
        Ok(c) => c,
        Err(e) => panic!("create transfer: {e:?}"),
    };
    let r1 = bank.ledger.confirm_typed(1, created.transfer_id, T0 + 1, &created.otp, &mut Effects::new());
    let r2 = bank.ledger.confirm_typed(1, created.transfer_id, T0 + 2, &created.otp, &mut Effects::new());
    let successes = [r1.is_ok(), r2.is_ok()].iter().filter(|ok| **ok).count();
    assert_eq!(successes, 1, "a transfer must pay out exactly once");
    assert_eq!(balance(&bank.ledger, from), 3_000, "debited once, not twice");
    assert_eq!(balance(&bank.ledger, to), 2_000, "credited once, not twice");
    let (status, _) = bank.ledger.transfer_status(created.transfer_id).unwrap();
    assert_eq!(status, TransferStatus::Completed);
    match r2 {
        Err(AppError::Conflict(m)) => assert_eq!(m, "transfer is already completed"),
        other => panic!("unexpected {other:?}"),
    }
}

#[test]
fn issued_code_is_six_digits_and_confirms() {
    let (mut bank, from, to) = rig(5_000);
    let c = bank.create_transfer(1, Role::Customer, from, to, 1_250, Some("rent".to_string()), T0, &ScreenOtp, &mut Effects::new()).ok().unwrap();
    assert_eq!(c.otp.len(), 6);
    assert!(c.otp.chars().all(|ch| ch.is_ascii_digit()));
    assert!(!c.otp_delivered);
    assert_eq!(bank.ledger.transfer_status(c.transfer_id).unwrap().0, TransferStatus::Pending);
    // No money moves before confirmation.
    assert_eq!(balance(&bank.ledger, from), 5_000);
    assert_eq!(bank.ledger.confirm_typed(1, c.transfer_id, T0 + MINUTE, &c.otp, &mut Effects::new()).unwrap(), TransferStatus::Completed);
    assert_eq!(balance(&bank.ledger, from), 3_750);
    assert_eq!(balance(&bank.ledger, to), 1_250);
}

#[test]
fn wrong_codes_count_and_the_third_rejects() {
    let (mut bank, from, to) = rig(5_000);
    let c = bank.create_transfer(1, Role::Customer, from, to, 1_000, None, T0, &ScreenOtp, &mut Effects::new()).ok().unwrap();
    let wrong = if c.otp == "000000" { "111111" } else { "000000" };
    let e1 = bank.ledger.confirm_typed(1, c.transfer_id, T0 + 1, wrong, &mut Effects::new()).unwrap_err();
    assert_eq!(message(&e1), "invalid confirmation code (attempt 1 of 3)");
    let e2 = bank.ledger.confirm_typed(1, c.transfer_id, T0 + 2, wrong, &mut Effects::new()).unwrap_err();
    assert_eq!(message(&e2), "invalid confirmation code (attempt 2 of 3)");
    let e3 = bank.ledger.confirm_typed(1, c.transfer_id, T0 + 3, wrong, &mut Effects::new()).unwrap_err();
    assert!(matches!(e3, AppError::BadRequest(_)));
    assert_eq!(message(&e3), "too many invalid codes - the transfer has been rejected");
    let (status, reason) = bank.ledger.transfer_status(c.transfer_id).unwrap();
    assert_eq!(status, TransferStatus::Rejected);
    assert_eq!(reason.as_deref(), Some("too many invalid confirmation codes"));
    // Even the right code cannot revive it.
    assert!(bank.ledger.confirm_typed(1, c.transfer_id, T0 + 4, &c.otp, &mut Effects::new()).is_err());
    assert_eq!(balance(&bank.ledger, from), 5_000);
}

#[test]
fn a_stranger_cannot_confirm_or_burn_attempts() {
    let (mut bank, from, to) = rig(5_000);
    let c = bank.create_transfer(1, Role::Customer, from, to, 1_000, None, T0, &ScreenOtp, &mut Effects::new()).ok().unwrap();
    for _ in 0..5 {
        assert!(matches!(bank.ledger.confirm_typed(2, c.transfer_id, T0 + 1, "999999", &mut Effects::new()), Err(AppError::Forbidden)));
    }
    assert_eq!(bank.ledger.confirm_typed(1, c.transfer_id, T0 + 2, &c.otp, &mut Effects::new()).unwrap(), TransferStatus::Completed);
}

#[test]
fn confirmation_window_is_ten_minutes() {
    let (mut bank, from, to) = rig(5_000);
    let c = bank.create_transfer(1, Role::Customer, from, to, 1_000, None, T0, &ScreenOtp, &mut Effects::new()).ok().unwrap();
    let e = bank.ledger.confirm_typed(1, c.transfer_id, T0 + 10 * MINUTE + 1, &c.otp, &mut Effects::new()).unwrap_err();
    assert_eq!(message(&e), "the confirmation window has expired - please start the transfer again");
    let (status, reason) = bank.ledger.transfer_status(c.transfer_id).unwrap();
    assert_eq!(status, TransferStatus::Rejected);
    assert_eq!(reason.as_deref(), Some("confirmation window expired"));
    assert_eq!(balance(&bank.ledger, from), 5_000);
}

#[test]
fn creation_checks_amount_parties_and_funds() {
    let (mut bank, from, to) = rig(5_000);
    let e = bank.create_transfer(1, Role::Customer, from, to, 0, None, T0, &ScreenOtp, &mut Effects::new()).err().unwrap();
    assert_eq!(message(&e), "amount must be greater than zero");
    let e = bank.create_transfer(1, Role::Customer, from, from, 100, None, T0, &ScreenOtp, &mut Effects::new()).err().unwrap();
    assert_eq!(message(&e), "cannot transfer to the same account");
    let e = bank.create_transfer(1, Role::Customer, from, 99, 100, None, T0, &ScreenOtp, &mut Effects::new()).err().unwrap();
    assert!(matches!(e, AppError::NotFound(_)));
    assert_eq!(message(&e), "one of the accounts does not exist");
    let e = bank.create_transfer(2, Role::Customer, from, to, 100, None, T0, &ScreenOtp, &mut Effects::new()).err().unwrap();
    assert!(matches!(e, AppError::Forbidden));
    let e = bank.create_transfer(1, Role::Customer, 42, to, 100, None, T0, &ScreenOtp, &mut Effects::new()).err().unwrap();
    assert_eq!(message(&e), "account 42 not found");
    let e = bank.create_transfer(1, Role::Customer, from, to, 6_000, None, T0, &ScreenOtp, &mut Effects::new()).err().unwrap();
    assert_eq!(message(&e), "insufficient funds: balance $50.00 is less than $60.00");
    let e = bank.create_transfer(1, Role::Customer, from, to, LIMIT + 1, None, T0, &ScreenOtp, &mut Effects::new()).err().unwrap();
    assert!(message(&e).starts_with("insufficient funds"));
}

#[test]
fn a_self_transfer_between_own_accounts_is_refused() {
    let (mut bank, from, _to) = rig(5_000);
    let own = bank.ledger.open_account(1, AccountType::Savings, true, LIMIT, 43_200).unwrap();
    let e = bank.create_transfer(1, Role::Customer, from, own, 100, None, T0, &ScreenOtp, &mut Effects::new()).err().unwrap();
    assert_eq!(
        message(&e),
        "you cannot transfer to yourself - the recipient account also belongs to you"
    );
}

#[test]
fn three_overdraft_attempts_freeze_the_account() {
    let (mut bank, from, to) = rig(1_000);
    for k in 0..3 {
        let e = bank.create_transfer(1, Role::Customer, from, to, 5_000, None, T0 + k, &ScreenOtp, &mut Effects::new()).err().unwrap();
        assert!(message(&e).starts_with("insufficient funds"));
    }
    assert_eq!(bank.ledger.account(from).unwrap().status, AccountStatus::Frozen);
    let c = bank.create_transfer(1, Role::Customer, from, to, 100, None, T0 + 10, &ScreenOtp, &mut Effects::new()).ok().unwrap();
    let e = bank.ledger.confirm_typed(1, c.transfer_id, T0 + 11, &c.otp, &mut Effects::new()).unwrap_err();
    assert_eq!(message(&e), "source account is frozen");
    assert_eq!(balance(&bank.ledger, from), 1_000);
}

#[test]
fn sixth_transfer_in_a_minute_hits_the_rate_limit() {
    let (mut bank, from, to) = rig(100_000);
    for k in 0..5 {
        assert!(bank.create_transfer(1, Role::Customer, from, to, 100, None, T0 + k, &ScreenOtp, &mut Effects::new()).is_ok());
    }
    let e = bank.create_transfer(1, Role::Customer, from, to, 100, None, T0 + 10, &ScreenOtp, &mut Effects::new()).err().unwrap();
    assert!(matches!(e, AppError::Conflict(_)));
    assert_eq!(message(&e), "rate limit: more than 5 transfers in 60s");
    // A minute later the window has moved on.
    assert!(bank.create_transfer(1, Role::Customer, from, to, 100, None, T0 + 5 + MINUTE, &ScreenOtp, &mut Effects::new()).is_ok());
}

#[test]
fn a_large_transfer_is_held_then_released_by_staff() {
    let (mut bank, from, to) = rig(2_000_000);
    bank.ledger.request_limit_change(from, 2_000_000, T0 - 13 * 60 * MINUTE).unwrap();
    let c = bank.create_transfer(1, Role::Customer, from, to, 1_250_000, None, T0, &ScreenOtp, &mut Effects::new()).ok().unwrap();
    let s = bank.ledger.confirm_typed(1, c.transfer_id, T0 + 1, &c.otp, &mut Effects::new()).unwrap();
    assert_eq!(s, TransferStatus::OnHold);
    assert_eq!(bank.ledger.held_transfers(), vec![c.transfer_id]);
    assert_eq!(balance(&bank.ledger, from), 2_000_000);
    bank.ledger.submit_review(1, c.transfer_id, "buying a car", "S1234567A", &mut Effects::new()).unwrap();
    bank.ledger.release(c.transfer_id, 9, &mut Effects::new()).unwrap();
    assert_eq!(bank.ledger.transfer_status(c.transfer_id).unwrap().0, TransferStatus::Completed);
    assert_eq!(balance(&bank.ledger, from), 750_000);
    assert_eq!(balance(&bank.ledger, to), 1_250_000);
    assert!(bank.ledger.release(c.transfer_id, 9, &mut Effects::new()).is_err());
}

#[test]
fn a_denied_transfer_moves_no_money() {
    let (mut bank, from, to) = rig(2_000_000);
    bank.ledger.request_limit_change(from, 2_000_000, T0 - 13 * 60 * MINUTE).unwrap();
    let c = bank.create_transfer(1, Role::Customer, from, to, 1_000_000, None, T0, &ScreenOtp, &mut Effects::new()).ok().unwrap();
    assert_eq!(bank.ledger.confirm_typed(1, c.transfer_id, T0 + 1, &c.otp, &mut Effects::new()).unwrap(), TransferStatus::OnHold);
    bank.ledger.deny(c.transfer_id, 9, "identity not confirmed", &mut Effects::new()).unwrap();
    let (status, reason) = bank.ledger.transfer_status(c.transfer_id).unwrap();
    assert_eq!(status, TransferStatus::Rejected);
    assert!(reason.unwrap().contains("identity not confirmed"));
    assert_eq!(balance(&bank.ledger, from), 2_000_000);
    assert_eq!(balance(&bank.ledger, to), 0);
}

#[test]
fn history_and_owner_view() {
    let (mut bank, from, to) = rig(5_000);
    let c1 = bank.create_transfer(1, Role::Customer, from, to, 100, None, T0, &ScreenOtp, &mut Effects::new()).ok().unwrap();
    let c2 = bank.create_transfer(1, Role::Customer, from, to, 200, None, T0 + 1, &ScreenOtp, &mut Effects::new()).ok().unwrap();
    assert_eq!(bank.ledger.history(1), vec![c2.transfer_id, c1.transfer_id]);
    assert_eq!(bank.ledger.history(2), vec![c2.transfer_id, c1.transfer_id]);
    assert!(bank.ledger.history(3).is_empty());
    assert_eq!(bank.ledger.transfer_for_owner(1, c1.transfer_id).unwrap().amount, 100);
    let e = bank.ledger.transfer_for_owner(2, c1.transfer_id).unwrap_err();
    assert_eq!(message(&e), format!("transfer {} not found", c1.transfer_id));
}

#[test]
fn fraud_panel_flags_holds_rejections_and_large_transfers() {
    let (mut bank, from, to) = rig(2_000_000);
    bank.ledger.request_limit_change(from, 2_000_000, T0 - 13 * 60 * MINUTE).unwrap();
    let small = bank.create_transfer(1, Role::Customer, from, to, 100, None, T0, &ScreenOtp, &mut Effects::new()).ok().unwrap();
    bank.ledger.confirm_typed(1, small.transfer_id, T0 + 1, &small.otp, &mut Effects::new()).unwrap();
    let big = bank.create_transfer(1, Role::Customer, from, to, 1_250_000, None, T0 + 2, &ScreenOtp, &mut Effects::new()).ok().unwrap();
    bank.ledger.confirm_typed(1, big.transfer_id, T0 + 3, &big.otp, &mut Effects::new()).unwrap();
    let flagged = bank.ledger.flagged_transfers();
    assert_eq!(flagged.len(), 1);
    assert_eq!(flagged[0].0, big.transfer_id);
    assert_eq!(flagged[0].1, "large transfer (>= $10,000)");
}
