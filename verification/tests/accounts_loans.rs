use ferrobank::calendar::add_month;
use ferrobank::accounts::{adjustment_route, status_action, AdjustRoute, StatusAction};
use ferrobank::errors::AppError;
use ferrobank::ledger::Ledger;
use ferrobank::loans::{
    check_application, rate_pct, record_approval, scaled_to_cents, total_due, ApprovalOutcome,
    Approvals, TOTAL_DUE_SCALE,
};
use ferrobank::models::{AccountStatus, AccountType, LoanStatus, Role};
use ferrobank::records::{AdminLoanRow, AdminTransferRow, Loan};
use ferrobank::models::TransferStatus;

const T0: i64 = 1_700_000_000_000_000;
const HOUR: i64 = 3_600_000_000;

fn message(e: &AppError) -> String {
    match e {
        AppError::NotFound(m) | AppError::BadRequest(m) | AppError::Conflict(m) | AppError::Internal(m) => m.clone(),
        AppError::Unauthorized => "unauthorized".to_string(),
        AppError::Forbidden => "forbidden".to_string(),
    }
}

#[test]
fn account_numbers_are_ten_digits_and_unique() {
    let mut l = Ledger::new();
    let mut seen = Vec::new();
    for owner in 1..=20 {
        let id = l.open_account(owner, AccountType::Savings, true, 500_000, 43_200).unwrap();
        let a = l.account(id).unwrap();
        assert!((1_000_000_000..=9_999_999_999).contains(&a.number));
        assert!(!seen.contains(&a.number));
        seen.push(a.number);
        assert_eq!(l.account_by_number(a.number), Some(id));
    }
}

#[test]
fn customer_opened_accounts_wait_for_approval() {
    let mut l = Ledger::new();
    let id = l.open_account(7, AccountType::Checking, false, 500_000, 43_200).unwrap();
    assert_eq!(l.account(id).unwrap().status, AccountStatus::Pending);
    assert_eq!(l.account(id).unwrap().balance, 0);
    assert_eq!(l.change_status(id, StatusAction::Approve).unwrap(), AccountStatus::Active);
    let e = l.change_status(id, StatusAction::Approve).unwrap_err();
    assert_eq!(message(&e), "account is not pending approval");
}

#[test]
fn freeze_unfreeze_and_close() {
    let mut l = Ledger::new();
    let id = l.open_account(7, AccountType::Checking, true, 500_000, 43_200).unwrap();
    assert_eq!(l.change_status(id, StatusAction::Freeze).unwrap(), AccountStatus::Frozen);
    assert_eq!(message(&l.change_status(id, StatusAction::Freeze).unwrap_err()), "account is not active and cannot be frozen");
    assert_eq!(l.change_status(id, StatusAction::Unfreeze).unwrap(), AccountStatus::Active);
    assert_eq!(message(&l.change_status(id, StatusAction::Unfreeze).unwrap_err()), "account is not frozen and cannot be unfrozen");
    l.adjust_balance(id, 1_050).unwrap();
    assert_eq!(
        message(&l.change_status(id, StatusAction::Close).unwrap_err()),
        "cannot close account with non-zero balance (10.50)"
    );
    l.adjust_balance(id, -1_050).unwrap();
    assert_eq!(l.change_status(id, StatusAction::Close).unwrap(), AccountStatus::Closed);
    for action in [StatusAction::Approve, StatusAction::Freeze, StatusAction::Unfreeze, StatusAction::Close] {
        assert!(status_action(action, AccountStatus::Closed, 0).is_err());
    }
    assert_eq!(message(&l.change_status(99, StatusAction::Close).unwrap_err()), "account 99 not found");
}

#[test]
fn adjustments_under_dual_control() {
    let mut l = Ledger::new();
    let id = l.open_account(7, AccountType::Checking, true, 500_000, 43_200).unwrap();
    assert!(matches!(adjustment_route(Role::Customer, 100), Err(AppError::Forbidden)));
    assert_eq!(message(&adjustment_route(Role::Teller, 0).unwrap_err()), "adjustment cannot be zero");
    assert_eq!(adjustment_route(Role::Teller, 100_000).unwrap(), AdjustRoute::Immediate);
    assert_eq!(adjustment_route(Role::Teller, -100_001).unwrap(), AdjustRoute::Parked);
    // Small: applied at once.
    assert_eq!(l.request_adjustment(id, 50_000, 10, Role::Teller).unwrap(), Some(50_000));
    // Large: parked until the other role approves.
    assert_eq!(l.request_adjustment(id, 250_000, 10, Role::Teller).unwrap(), None);
    assert_eq!(l.account(id).unwrap().balance, 50_000);
    let e = l.approve_adjustment(1, 11, Role::Teller).unwrap_err();
    assert_eq!(message(&e), "dual control: a member of the OTHER staff role must approve this adjustment");
    let e = l.approve_adjustment(1, 10, Role::Admin).unwrap_err();
    assert_eq!(message(&e), "dual control: a member of the OTHER staff role must approve this adjustment");
    assert_eq!(l.approve_adjustment(1, 20, Role::Admin).unwrap(), 300_000);
    assert_eq!(l.account(id).unwrap().balance, 300_000);
    // Applied exactly once.
    let e = l.approve_adjustment(1, 21, Role::Admin).unwrap_err();
    assert_eq!(message(&e), "this adjustment request no longer exists or was already approved");
    assert_eq!(l.account(id).unwrap().balance, 300_000);
    let e = l.adjust_balance(id, -400_000).unwrap_err();
    assert_eq!(message(&e), "adjustment would make the balance negative ($3000.00 + $-4000.00)");
}

#[test]
fn limit_increase_is_held_and_decrease_applies_now() {
    let mut l = Ledger::new();
    let id = l.open_account(7, AccountType::Checking, true, 500_000, 43_200).unwrap();
    let when = l.request_limit_change(id, 1_000_000, T0).unwrap();
    assert_eq!(when, T0 + 12 * HOUR);
    assert_eq!(l.account(id).unwrap().transfer_limit, 500_000);
    assert_eq!(l.pending_limit(id, T0 + HOUR), Some((1_000_000, T0 + 12 * HOUR)));
    l.promote_limits(id, T0 + HOUR);
    assert_eq!(l.account(id).unwrap().transfer_limit, 500_000);
    l.promote_limits(id, T0 + 12 * HOUR);
    assert_eq!(l.account(id).unwrap().transfer_limit, 1_000_000);
    assert_eq!(l.request_limit_change(id, 100_000, T0 + 13 * HOUR).unwrap(), T0 + 13 * HOUR);
    assert_eq!(l.account(id).unwrap().transfer_limit, 100_000);
    assert_eq!(message(&l.request_limit_change(id, 0, T0).unwrap_err()), "the limit must be positive");
}

#[test]
fn loan_formulas() {
    // $5,000 at 5.25% over 12 months owes $5,262.50.
    let due = total_due(500_000, 525, 12);
    assert_eq!(due, 500_000 * (120_000 + 525 * 12));
    assert_eq!(scaled_to_cents(due), 526_250);
    assert_eq!(rate_pct(525), "5.25%");
    assert_eq!(rate_pct(700), "7%");
    assert_eq!(rate_pct(650), "6.5%");
    assert_eq!(rate_pct(0), "0%");
    assert_eq!(TOTAL_DUE_SCALE, 120_000);
    // Half a cent rounds to the even cent.
    assert_eq!(scaled_to_cents(60_000), 0);
    assert_eq!(scaled_to_cents(180_000), 2);
    let loan = Loan {
        id: 1,
        user_id: 1,
        principal: 1,
        rate_bp: 1_234,
        term_months: 1,
        status: LoanStatus::Pending,
        disbursement_account_id: None,
        next_payment_due: None,
        created_at: 0,
    };
    assert_eq!(loan.rate_pct(), "12.34%");
    let row = AdminLoanRow { id: 1, user_id: 1, applicant_name: "A".to_string(), principal: 1, rate_bp: 500, term_months: 6 };
    assert_eq!(row.rate_pct(), "5%");
}

#[test]
fn loan_application_checks() {
    assert_eq!(message(&check_application(0, 525, 12).unwrap_err()), "principal must be positive");
    assert_eq!(
        message(&check_application(100, 10_000, 12).unwrap_err()),
        "interest rate must be between 0 and 1 (e.g. 0.0525 for 5.25%)"
    );
    assert_eq!(message(&check_application(100, 525, 0).unwrap_err()), "term must be between 1 and 360 months");
    assert_eq!(message(&check_application(100, 525, 361).unwrap_err()), "term must be between 1 and 360 months");
    assert!(check_application(100, 0, 360).is_ok());
}

#[test]
fn loan_needs_a_teller_and_an_admin() {
    let none = Approvals { teller: false, admin: false };
    assert!(matches!(record_approval(1, Role::Customer, Some(LoanStatus::Pending), none), Err(AppError::Forbidden)));
    match record_approval(1, Role::Teller, Some(LoanStatus::Pending), none).unwrap() {
        ApprovalOutcome::Recorded(a) => assert!(a.teller && !a.admin),
        other => panic!("{other:?}"),
    }
    let teller = Approvals { teller: true, admin: false };
    assert_eq!(
        message(&record_approval(1, Role::Teller, Some(LoanStatus::Pending), teller).unwrap_err()),
        "your role has already approved this loan"
    );
    match record_approval(1, Role::Admin, Some(LoanStatus::Pending), teller).unwrap() {
        ApprovalOutcome::Complete(a) => assert!(a.teller && a.admin),
        other => panic!("{other:?}"),
    }
    assert_eq!(
        message(&record_approval(4, Role::Admin, None, none).unwrap_err()),
        "loan 4 is not pending or does not exist"
    );
}

#[test]
fn loan_lifecycle_pays_out_once_and_is_repaid() {
    let mut l = Ledger::new();
    let acct = l.open_account(5, AccountType::Checking, true, 500_000, 43_200).unwrap();
    let other = l.open_account(6, AccountType::Checking, true, 500_000, 43_200).unwrap();
    let e = l.apply_loan(5, 100_000, 1_200, 12, other, T0).unwrap_err();
    assert_eq!(message(&e), "Choose one of your active accounts for the payout.");
    let id = l.apply_loan(5, 100_000, 1_200, 12, acct, T0).unwrap();
    assert_eq!(l.loan(id).unwrap().status, LoanStatus::Pending);
    assert_eq!(l.pending_loans(), 1);
    assert_eq!(l.pending_applications().len(), 1);
    // A repayment before approval is refused.
    let e = l.repay_loan(id, 1_000, acct, 5, T0).unwrap_err();
    assert_eq!(message(&e), "cannot repay a loan that is pending");
    // First approval records, second pays out.
    assert_eq!(l.approve_loan(id, Role::Teller, T0).unwrap(), LoanStatus::Pending);
    assert_eq!(l.account(acct).unwrap().balance, 0);
    assert_eq!(l.approve_loan(id, Role::Admin, T0).unwrap(), LoanStatus::Approved);
    assert_eq!(l.account(acct).unwrap().balance, 100_000);
    // 2023-11-14 22:13:20 UTC: the first repayment is due 2023-12-14, same time.
    assert_eq!(l.loan(id).unwrap().next_payment_due, Some(T0 + 30 * 24 * HOUR));
    assert!(l.approve_loan(id, Role::Admin, T0).is_err());
    assert!(l.approve_loan(id, Role::Teller, T0).is_err());
    assert_eq!(l.account(acct).unwrap().balance, 100_000);
    // $1,000 at 12% over 12 months owes $1,120.00.
    assert_eq!(l.outstanding_balance(id).unwrap(), 112_000 * TOTAL_DUE_SCALE);
    assert_eq!(l.portfolio_outstanding(), 112_000 * TOTAL_DUE_SCALE);
    // Only the borrower repays, from their own account.
    assert!(matches!(l.repay_loan(id, 1_000, acct, 6, T0), Err(AppError::Forbidden)));
    assert!(matches!(l.repay_loan(id, 1_000, other, 5, T0), Err(AppError::Forbidden)));
    assert_eq!(message(&l.repay_loan(id, 0, acct, 5, T0).unwrap_err()), "repayment must be positive");
    assert_eq!(
        message(&l.repay_loan(id, 200_000, acct, 5, T0).unwrap_err()),
        "insufficient funds in the funding account"
    );
    assert_eq!(l.repay_loan(id, 60_000, acct, 5, T0).unwrap(), LoanStatus::Active);
    // The due date advances a calendar month: 2024-01-14.
    assert_eq!(l.loan(id).unwrap().next_payment_due, Some(T0 + 61 * 24 * HOUR));
    assert_eq!(l.account(acct).unwrap().balance, 40_000);
    l.adjust_balance(acct, 100_000).unwrap();
    assert_eq!(l.repay_loan(id, 52_000, acct, 5, T0).unwrap(), LoanStatus::PaidOff);
    assert_eq!(l.loan(id).unwrap().next_payment_due, None);
    assert_eq!(l.outstanding_balance(id).unwrap(), 0);
    assert_eq!(l.portfolio_outstanding(), 0);
    assert_eq!(message(&l.repay_loan(id, 1, acct, 5, T0).unwrap_err()), "cannot repay a loan that is paid off");
    assert_eq!(message(&l.outstanding_balance(9).unwrap_err()), "loan 9 not found");
    let snap = l.snapshot();
    assert_eq!(snap.loans, 1);
    assert_eq!(snap.repayments, 2);
    let reps = l.list_repayments(id);
    assert_eq!(reps.len(), 2);
    assert_eq!(reps[0].amount, 52_000);
    assert_eq!(reps[1].amount, 60_000);
    assert_eq!(reps[1].account_id, acct);
    assert_eq!(reps[0].loan_id, id);
    assert!(l.list_repayments(id + 1).is_empty());
    assert_eq!(snap.accounts, 2);
    assert_eq!(snap.active_accounts, 2);
    assert_eq!(snap.total_deposits, 88_000);
    assert_eq!(l.loans_of(5).len(), 1);
    assert!(l.loans_of(6).is_empty());
}

#[test]
fn a_rejected_loan_is_never_paid_out() {
    let mut l = Ledger::new();
    let acct = l.open_account(5, AccountType::Checking, true, 500_000, 43_200).unwrap();
    let id = l.apply_loan(5, 100_000, 500, 6, acct, T0).unwrap();
    assert!(matches!(l.reject_loan(id, Role::Customer), Err(AppError::Forbidden)));
    assert_eq!(l.reject_loan(id, Role::Teller).unwrap(), LoanStatus::Rejected);
    assert_eq!(message(&l.approve_loan(id, Role::Admin, T0).unwrap_err()), "loan 1 is not pending or does not exist");
    assert_eq!(l.account(acct).unwrap().balance, 0);
}

#[test]
fn staff_transfer_rows_explain_their_flag() {
    let mut row = AdminTransferRow {
        id: 1,
        from_account_id: 1,
        to_account_id: 2,
        from_user_id: 1,
        to_user_id: 2,
        from_number: "1000000001".to_string(),
        to_number: "1000000002".to_string(),
        from_owner: "Alice".to_string(),
        to_owner: "Bob".to_string(),
        amount: 999_999,
        status: TransferStatus::Completed,
        note: None,
        status_reason: None,
        created_at: 0,
    };
    assert_eq!(row.flag_reason(), None);
    row.amount = 1_000_000;
    assert_eq!(row.flag_reason().as_deref(), Some("Large transfer (>= $10,000)"));
    row.status_reason = Some("source account is frozen".to_string());
    assert_eq!(row.flag_reason().as_deref(), Some("source account is frozen"));
}

#[test]
fn pending_applications_lapse_after_seven_days() {
    let mut l = Ledger::new();
    let acct = l.open_account(5, AccountType::Checking, true, 500_000, 43_200).unwrap();
    let old = l.apply_loan(5, 100_000, 500, 6, acct, T0).unwrap();
    let fresh = l.apply_loan(5, 50_000, 500, 6, acct, T0 + 24 * 6 * HOUR).unwrap();
    l.expire_applications(T0 + 24 * 7 * HOUR - 1);
    assert_eq!(l.loan(old).unwrap().status, LoanStatus::Pending);
    l.expire_applications(T0 + 24 * 7 * HOUR);
    assert_eq!(l.loan(old).unwrap().status, LoanStatus::Rejected);
    assert_eq!(l.loan(fresh).unwrap().status, LoanStatus::Pending);
    assert!(l.approve_loan(old, Role::Admin, T0).is_err());
    assert_eq!(l.pending_loans(), 1);
}

#[test]
fn snapshot_appends_state_row_to_audit_log() {
    let mut l = Ledger::new();
    let a = l.open_account(1, AccountType::Checking, true, 500_000, 43_200).unwrap();
    let b = l.open_account(2, AccountType::Savings, true, 500_000, 43_200).unwrap();
    l.open_account(3, AccountType::Savings, false, 500_000, 43_200).unwrap();
    l.adjust_balance(a, 5_000).unwrap();
    l.adjust_balance(b, 2_550).unwrap();
    let s = l.snapshot();
    assert_eq!(s.accounts, 3);
    assert_eq!(s.active_accounts, 2);
    assert_eq!(s.total_deposits, 7_550);
    assert_eq!(s.transfers, 0);
    assert_eq!(s.completed_transfers, 0);
    assert_eq!(s.loans, 0);
    assert_eq!(s.repayments, 0);
    let payload = format!(
        "{{\"accounts\":{},\"active_accounts\":{},\"total_deposits\":\"{}\",\"transfers\":{},\"completed_transfers\":{},\"loans\":{},\"repayments\":{}}}",
        s.accounts,
        s.active_accounts,
        ferrobank::money::money_text(s.total_deposits as i64),
        s.transfers,
        s.completed_transfers,
        s.loans,
        s.repayments
    );
    let mut log = ferrobank::notices::AuditLog::new();
    log.record(None, "system.snapshot", payload, T0);
    let last = log.recent(1);
    assert_eq!(last.len(), 1);
    assert_eq!(last[0].event, "system.snapshot");
    assert_eq!(last[0].actor_user_id, None);
    for key in ["accounts", "active_accounts", "total_deposits", "transfers", "completed_transfers", "loans", "repayments"] {
        assert!(last[0].payload.contains(&format!("\"{key}\"")), "snapshot payload missing `{key}`");
    }
    assert!(last[0].payload.contains("\"total_deposits\":\"75.50\""));
}

#[test]
fn a_month_later_keeps_the_day_or_takes_the_last_day_of_a_shorter_month() {
    // 2024-01-31 12:00 -> 2024-02-29 12:00 (leap year).
    assert_eq!(add_month(1_706_702_400_000_000), 1_709_208_000_000_000);
    // 2023-01-31 -> 2023-02-28.
    assert_eq!(add_month(1_675_123_200_000_000), 1_677_542_400_000_000);
    // 2023-12-15 08:00 -> 2024-01-15 08:00, across the year.
    assert_eq!(add_month(1_702_627_200_000_000), 1_705_305_600_000_000);
    // 1970-01-01 -> 1970-02-01.
    assert_eq!(add_month(0), 31 * 24 * HOUR);
}
