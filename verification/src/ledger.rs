//! The bank's books: accounts and transfers, and the transfer lifecycle
//! applied to them.
//!
//! A [`Ledger`] holds the rows of the bank's `accounts` and `transfers`
//! tables and runs each operation the way the database runs it under its
//! row locks: one whole operation at a time. Every operation reads what the
//! rules in [`crate::transfer`] need, lets them decide, and applies the
//! write they decide. The laws at the end of this file are stated over the
//! operations' specifications.

use vstd::prelude::*;
use crate::errors::{AppError, ErrorKind};
use crate::accounts::{
    ADJUSTMENT_DUAL_CONTROL_CENTS,
    limit_change_decision, limit_change_spec, LimitChange,
    adjust_decision, adjust_spec, adjustment_route, adjustment_route_spec,
    approve_adjustment_decision, approve_adjustment_spec, status_action, status_action_spec,
    AdjustRoute, ParkedAdjustment, StatusAction,
};
use crate::loans::{
    application_check_spec, approval_spec, check_application, check_reject, check_repayment,
    outstanding, outstanding_scaled, record_approval, reject_spec, repayment_check_spec,
    status_after_repayment, total_due, total_due_scaled, ApprovalOutcome, Approvals,
    TOTAL_DUE_SCALE,
};
use crate::models::{AccountStatus, AccountType, LoanStatus, Role, TransferStatus};
use crate::money::{dollars_seq, money_ok, money_seq, money_text, MAX_CENTS};
use crate::calendar::{add_month, add_month_spec, LAST_ADVANCEABLE};
use crate::effects::{
    event1, event2, event4, event5, event_view, lemma_then_none, no_effects, num, num_field, one_event, text_field, then, txt,
    Effects, EffectsView, Notice, NoticeView,
};
use crate::otp::{code_check, code_check_spec};
use crate::text::{ascii_lower, int_text, i64_text, starts_with_seq};
use crate::transfer::{
    hold_reason_seq, hold_rule_spec, HoldRule,
    CONFIRM_WINDOW_MICROS,
    check_review, deny_decision, deny_spec, release_decision, release_failed_reason,
    release_failed_reason_spec, release_spec, review_check_spec, ReleaseStep, ReleaseStepView,
    check_funds, check_parties, check_request, funds_check_spec, parties_check_spec,
    request_check_spec, FundsCheck, FundsCheckView,
    confirm_gate, confirm_settle, freeze_due_spec, gate_spec, is_overdraft_reason,
    is_overdraft_reason_spec, overdraft_freeze_due, settle_spec, CodeCheck, LockedAccount,
    PendingTransfer, RejectCause, Step, StepView, LARGE_TRANSFER_CENTS, OVERDRAFT_FREEZE_ATTEMPTS,
};

verus! {

/// One hour, in microseconds: the velocity rule's window.
pub const HOUR_MICROS: i64 = 3_600_000_000;
/// One day, in microseconds: the overdraft-freeze window.
pub const DAY_MICROS: i64 = 86_400_000_000;

/// A row of the accounts table.
#[derive(Clone, Copy, Debug, PartialEq, Eq, Structural)]
pub struct AccountRec {
    pub id: i64,
    pub owner: i64,
    pub kind: AccountType,
    pub status: AccountStatus,
    pub balance: i64,
    pub transfer_limit: i64,
    /// How long a raised transfer limit is held before it applies, in seconds.
    pub limit_hold_seconds: i32,
    /// The ten-digit account number customers pay to.
    pub number: u64,
}

/// A requested change of an account's per-transfer limit.
#[derive(Clone, Copy, Debug, PartialEq, Eq, Structural)]
pub struct LimitChangeRec {
    pub account_id: i64,
    pub old_limit: i64,
    pub new_limit: i64,
    /// When the new limit takes effect, in microseconds.
    pub effective_at: i64,
    pub applied: bool,
}

/// A large balance adjustment parked for a second approval.
#[derive(Clone, Copy, Debug, PartialEq, Eq, Structural)]
pub struct AdjustmentRec {
    pub id: i64,
    pub account_id: i64,
    pub delta: i64,
    pub requested_by: i64,
    pub requested_role: Role,
    pub approved_by: Option<i64>,
}

/// A loan and what was repaid on it.
#[derive(Clone, Copy, Debug, PartialEq, Eq, Structural)]
pub struct LoanRec {
    pub id: i64,
    pub user_id: i64,
    pub principal: i64,
    /// Annual rate in hundredths of a percent.
    pub rate_bp: i64,
    pub term_months: i32,
    pub status: LoanStatus,
    /// The account credited with the principal once the loan is approved.
    pub disbursement_account_id: i64,
    pub approvals: Approvals,
    /// The sum of the repayments made.
    pub paid: i128,
    /// The number of repayments made.
    pub repayments: i128,
    /// When the next monthly repayment is due: a calendar month after the
    /// approval, advanced a month by each repayment, cleared at payoff.
    pub next_payment_due: Option<i64>,
    pub created_at: i64,
}

/// A row of the repayments table: one repayment of a loan.
#[derive(Clone, Copy, Debug, PartialEq, Eq, Structural)]
pub struct RepaymentRec {
    pub id: i64,
    pub loan_id: i64,
    pub amount: i64,
    /// The account it was drawn from.
    pub account_id: i64,
    /// When, in microseconds.
    pub paid_at: i64,
}

/// Where a held transfer's review request stands.
#[derive(Clone, Copy, Debug, PartialEq, Eq, Structural)]
pub enum ReviewState {
    NotFiled,
    Filed,
    /// Released by the staff member with this user id.
    Released(i64),
    /// Denied by the staff member with this user id.
    Denied(i64),
}

/// A row of the transfers table, with its review request.
#[derive(Debug)]
pub struct TransferRec {
    pub id: i64,
    pub from_account_id: i64,
    pub to_account_id: i64,
    pub amount: i64,
    pub status: TransferStatus,
    pub note: Option<String>,
    /// Why the transfer was rejected or held.
    pub reason: Option<String>,
    /// The hash of the transfer's one-time code, while it can be confirmed.
    pub otp_hash: Option<String>,
    pub otp_attempts: i32,
    /// Creation time, in microseconds.
    pub created_at: i64,
    pub review: ReviewState,
    /// The purpose and identity number the customer filed for review.
    pub claim: Option<(String, String)>,
}

/// The view of a [`TransferRec`].
pub struct TransferView {
    pub id: i64,
    pub from_account_id: i64,
    pub to_account_id: i64,
    pub amount: i64,
    pub status: TransferStatus,
    pub note: Option<Seq<char>>,
    pub reason: Option<Seq<char>>,
    pub otp_hash: Option<Seq<char>>,
    pub otp_attempts: i32,
    pub created_at: i64,
    pub review: ReviewState,
    pub claim: Option<(Seq<char>, Seq<char>)>,
}

/// The view of an optional string.
pub open spec fn opt_text(o: Option<String>) -> Option<Seq<char>> {
    match o {
        Some(s) => Some(s@),
        None => None,
    }
}

impl View for TransferRec {
    type V = TransferView;

    open spec fn view(&self) -> TransferView {
        TransferView {
            id: self.id,
            from_account_id: self.from_account_id,
            to_account_id: self.to_account_id,
            amount: self.amount,
            status: self.status,
            note: opt_text(self.note),
            reason: opt_text(self.reason),
            otp_hash: opt_text(self.otp_hash),
            otp_attempts: self.otp_attempts,
            created_at: self.created_at,
            review: self.review,
            claim: match self.claim {
                Some((p, n)) => Some((p@, n@)),
                None => None,
            },
        }
    }
}

/// A copy of an optional string.
pub fn copy_text(o: &Option<String>) -> (r: Option<String>)
    ensures
        opt_text(r) == opt_text(*o),
{
    match o {
        Some(s) => Some(s.clone()),
        None => None,
    }
}

impl TransferRec {
    /// A copy of this row.
    pub fn duplicate(&self) -> (r: TransferRec)
        ensures
            r@ == self@,
    {
        TransferRec {
            id: self.id,
            from_account_id: self.from_account_id,
            to_account_id: self.to_account_id,
            amount: self.amount,
            status: self.status,
            note: copy_text(&self.note),
            reason: copy_text(&self.reason),
            otp_hash: copy_text(&self.otp_hash),
            otp_attempts: self.otp_attempts,
            created_at: self.created_at,
            review: self.review,
            claim: match &self.claim {
                Some((p, n)) => Some((p.clone(), n.clone())),
                None => None,
            },
        }
    }
}

/// The view of a [`Ledger`]: its two tables.
#[verifier::ext_equal]
pub struct Books {
    pub accounts: Seq<AccountRec>,
    pub transfers: Seq<TransferView>,
    pub limit_changes: Seq<LimitChangeRec>,
    pub adjustments: Seq<AdjustmentRec>,
    pub loans: Seq<LoanRec>,
    pub repayments: Seq<RepaymentRec>,
}

/// The accounts, transfers, limit changes, parked adjustments, loans and
/// loan repayments of the bank.
pub struct Ledger {
    accounts: Vec<AccountRec>,
    transfers: Vec<TransferRec>,
    limit_changes: Vec<LimitChangeRec>,
    adjustments: Vec<AdjustmentRec>,
    loans: Vec<LoanRec>,
    repayments: Vec<RepaymentRec>,
}

impl View for Ledger {
    type V = Books;

    closed spec fn view(&self) -> Books {
        Books {
            accounts: self.accounts@,
            transfers: Seq::new(self.transfers@.len(), |i: int| self.transfers@[i]@),
            limit_changes: self.limit_changes@,
            adjustments: self.adjustments@,
            loans: self.loans@,
            repayments: self.repayments@,
        }
    }
}

// ── The books as mathematics ─────────────────────────────────────────

/// Sound books: ids follow the row order, every balance is funded and fits
/// its column, every transfer is of a positive amount between two distinct
/// accounts.
pub open spec fn books_ok(b: Books) -> bool {
    &&& b.accounts.len() < i64::MAX
    &&& b.transfers.len() < i64::MAX
    &&& forall|i: int|
        0 <= i < b.accounts.len() ==> {
            let a = #[trigger] b.accounts[i];
            &&& a.id == i + 1
            &&& 0 <= a.balance <= MAX_CENTS
            &&& money_ok(a.transfer_limit as int)
            &&& a.limit_hold_seconds >= 0
            &&& 1_000_000_000 <= a.number <= 9_999_999_999
        }
    &&& forall|i: int, j: int|
        0 <= i < j < b.accounts.len() ==> (#[trigger] b.accounts[i]).number != (#[trigger] b.accounts[j]).number
    &&& forall|j: int|
        0 <= j < b.transfers.len() ==> {
            let t = #[trigger] b.transfers[j];
            &&& t.id == j + 1
            &&& 0 < t.amount <= MAX_CENTS
            &&& t.from_account_id != t.to_account_id
            &&& t.otp_attempts >= 0
        }
    &&& b.limit_changes.len() < i64::MAX
    &&& b.adjustments.len() < i64::MAX
    &&& b.loans.len() < i64::MAX
    &&& forall|k: int|
        0 <= k < b.limit_changes.len() ==> money_ok((#[trigger] b.limit_changes[k]).new_limit as int)
    &&& forall|k: int|
        0 <= k < b.adjustments.len() ==> {
            let q = #[trigger] b.adjustments[k];
            &&& q.id == k + 1
            &&& money_ok(q.delta as int)
        }
    &&& forall|k: int|
        0 <= k < b.loans.len() ==> {
            let n = #[trigger] b.loans[k];
            &&& n.id == k + 1
            &&& loan_ok(n)
        }
    &&& b.repayments.len() < i64::MAX
    &&& forall|k: int| 0 <= k < b.repayments.len() ==> (#[trigger] b.repayments[k]).id == k + 1
}

/// A sound loan row: the application checks hold, and a loan still being
/// repaid has not been paid off.
pub open spec fn loan_ok(n: LoanRec) -> bool {
    &&& 0 < n.principal <= MAX_CENTS
    &&& 0 <= n.rate_bp < crate::loans::MAX_RATE_BP
    &&& 1 <= n.term_months <= crate::loans::MAX_TERM_MONTHS
    &&& 0 <= n.paid <= 40 * MAX_CENTS
    &&& n.status == LoanStatus::Pending ==> n.paid == 0
    &&& 0 <= n.repayments <= n.paid
    &&& (n.status == LoanStatus::Approved || n.status == LoanStatus::Active) ==> n.paid
        * crate::loans::TOTAL_DUE_SCALE < crate::loans::total_due_scaled(
        n.principal as int,
        n.rate_bp as int,
        n.term_months as int,
    )
}

/// The money held across all accounts.
pub open spec fn total(accounts: Seq<AccountRec>) -> int
    decreases accounts.len(),
{
    if accounts.len() == 0 {
        0
    } else {
        total(accounts.drop_last()) + accounts.last().balance
    }
}

/// Two lists of the same accounts in which every account holds the same
/// balance.
pub open spec fn same_balances(a: Seq<AccountRec>, b: Seq<AccountRec>) -> bool {
    &&& a.len() == b.len()
    &&& forall|i: int| 0 <= i < a.len() ==> (#[trigger] a[i]).balance == b[i].balance
}

/// The sum of `f` over transfers.
pub open spec fn sum_by(ts: Seq<TransferView>, f: spec_fn(TransferView) -> int) -> int
    decreases ts.len(),
{
    if ts.len() == 0 {
        0
    } else {
        sum_by(ts.drop_last(), f) + f(ts.last())
    }
}

/// Money on hold for review from account `from`, other than transfer `except`.
pub open spec fn held_term(from: i64, except: i64) -> spec_fn(TransferView) -> int {
    |t: TransferView|
        if t.status == TransferStatus::OnHold && t.from_account_id == from && t.id != except {
            t.amount as int
        } else {
            0
        }
}

/// Money committed by pending or held transfers from account `from`.
pub open spec fn reserved_term(from: i64) -> spec_fn(TransferView) -> int {
    |t: TransferView|
        if (t.status == TransferStatus::Pending || t.status == TransferStatus::OnHold)
            && t.from_account_id == from {
            t.amount as int
        } else {
            0
        }
}

/// Completed or held transfers from account `from` created after `since`.
pub open spec fn recent_term(from: i64, since: int) -> spec_fn(TransferView) -> int {
    |t: TransferView|
        if (t.status == TransferStatus::Completed || t.status == TransferStatus::OnHold)
            && t.from_account_id == from && t.created_at > since {
            1
        } else {
            0
        }
}

/// Overdraft attempts from account `from` created after `since`.
pub open spec fn overdraft_term(from: i64, since: int) -> spec_fn(TransferView) -> int {
    |t: TransferView|
        if t.status == TransferStatus::Rejected && t.from_account_id == from && t.created_at
            > since && (t.reason matches Some(r) && is_overdraft_reason_spec(r)) {
            1
        } else {
            0
        }
}

/// A sum read as an amount: at most the largest amount a column holds.
pub open spec fn capped(x: int) -> int {
    if x > MAX_CENTS {
        MAX_CENTS as int
    } else {
        x
    }
}

/// The account with id `id`.
pub open spec fn account_at(b: Books, id: int) -> Option<AccountRec> {
    if 1 <= id <= b.accounts.len() {
        Some(b.accounts[id - 1])
    } else {
        None
    }
}

/// An account as the engine reads it under lock.
pub open spec fn locked(a: Option<AccountRec>) -> Option<LockedAccount> {
    match a {
        Some(r) => Some(
            LockedAccount {
                id: r.id,
                status: r.status,
                balance: r.balance,
                transfer_limit: r.transfer_limit,
            },
        ),
        None => None,
    }
}

/// A transfer row as the engine reads it under lock.
pub open spec fn pending_of(t: TransferView) -> PendingTransfer {
    PendingTransfer {
        id: t.id,
        from_account_id: t.from_account_id,
        to_account_id: t.to_account_id,
        amount: t.amount,
        status: t.status,
        otp_attempts: t.otp_attempts,
        created_at: t.created_at,
    }
}

/// The books with transfer row `idx` replaced.
pub open spec fn with_transfer(b: Books, idx: int, t: TransferView) -> Books {
    Books { transfers: b.transfers.update(idx, t), ..b }
}

/// The books with account row `idx` replaced.
pub open spec fn with_account(b: Books, idx: int, a: AccountRec) -> Books {
    Books { accounts: b.accounts.update(idx, a), ..b }
}

/// The automatic freeze after repeated overdraft attempts: an active
/// account with three or more overdraft attempts in the past day is frozen.
pub open spec fn freeze_check_spec(b: Books, account_id: i64, now: int) -> Books {
    match account_at(b, account_id as int) {
        Some(a) => if freeze_due_spec(
            sum_by(b.transfers, overdraft_term(account_id, now - DAY_MICROS)),
        ) && a.status == AccountStatus::Active {
            with_account(b, account_id - 1, AccountRec { status: AccountStatus::Frozen, ..a })
        } else {
            b
        },
        None => b,
    }
}

/// The owner of account `id`, or 0 where there is none.
pub open spec fn owner_or_none(b: Books, id: i64) -> i64 {
    match account_at(b, id as int) {
        Some(a) => a.owner,
        None => 0,
    }
}

/// What a freeze check announces when it freezes the account: the event
/// `account.frozen.suspected_hijack`, and a notice to `actor`.
pub open spec fn freeze_effects(b: Books, account_id: i64, now: int, actor: i64) -> EffectsView {
    if freeze_check_spec(b, account_id, now) != b {
        (
            seq![
                event_view(
                    Some(actor),
                    "account.frozen.suspected_hijack"@,
                    seq![
                        num("account_id"@, account_id),
                        num(
                            "overdraft_attempts"@,
                            capped(sum_by(b.transfers, overdraft_term(account_id, now - DAY_MICROS))) as i64,
                        ),
                    ],
                ),
            ],
            seq![NoticeView::Frozen { user: actor }],
        )
    } else {
        no_effects()
    }
}

/// What a confirmation step announces, `actor` confirming transfer row
/// `idx` of books `b`.
pub open spec fn step_effects(b: Books, idx: int, step: StepView, now: int, actor: i64) -> EffectsView {
    let t = b.transfers[idx];
    let tid = num("transfer_id"@, t.id);
    let amount = txt("amount"@, money_seq(t.amount as int));
    let balance = txt(
        "balance"@,
        money_seq(
            match account_at(b, t.from_account_id as int) {
                Some(a) => a.balance as int,
                None => 0,
            },
        ),
    );
    match step {
        StepView::Refuse(_) => no_effects(),
        StepView::CountAttempt(n, _) => one_event(
            event_view(Some(actor), "transfer.otp_failed"@, seq![tid, num("attempt"@, n as i64)]),
        ),
        StepView::Reject(cause, reason, _) => match cause {
            RejectCause::Expired => one_event(event_view(Some(actor), "transfer.expired"@, seq![tid])),
            RejectCause::CodeLockout => one_event(
                event_view(
                    Some(actor),
                    "transfer.otp_lockout"@,
                    seq![tid, num("attempts"@, (t.otp_attempts + 1) as i64)],
                ),
            ),
            RejectCause::SourceInactive => one_event(
                event_view(Some(actor), "transfer.rejected"@, seq![tid, txt("reason"@, "source not active"@)]),
            ),
            RejectCause::DestinationInactive => one_event(
                event_view(Some(actor), "transfer.rejected"@, seq![tid, txt("reason"@, "destination not active"@)]),
            ),
            RejectCause::InsufficientFunds => then(
                one_event(
                    event_view(
                        Some(actor),
                        "transfer.rejected"@,
                        seq![tid, txt("reason"@, "insufficient funds"@), balance, amount],
                    ),
                ),
                freeze_effects(
                    with_transfer(b, idx, TransferView { status: TransferStatus::Rejected, reason: Some(reason), ..t }),
                    t.from_account_id,
                    now,
                    actor,
                ),
            ),
            RejectCause::FundsReserved => one_event(
                event_view(
                    Some(actor),
                    "transfer.rejected"@,
                    seq![
                        tid,
                        txt("reason"@, "funds reserved by on-hold transfers"@),
                        balance,
                        txt("reserved"@, money_seq(capped(sum_by(b.transfers, held_term(t.from_account_id, t.id))))),
                        amount,
                    ],
                ),
            ),
        },
        StepView::Hold(_, reason) => (
            seq![event_view(Some(actor), "transfer.held"@, seq![tid, txt("reason"@, reason)])],
            seq![NoticeView::Held { user: actor, amount: t.amount, reason }],
        ),
        StepView::Complete(_, _) => (
            seq![
                event_view(
                    Some(actor),
                    "transfer.completed"@,
                    seq![
                        tid,
                        num("from_account_id"@, t.from_account_id),
                        num("to_account_id"@, t.to_account_id),
                        amount,
                    ],
                ),
            ],
            seq![
                NoticeView::Sent { user: actor, amount: t.amount, recipient: owner_or_none(b, t.to_account_id) },
                NoticeView::Received {
                    user: owner_or_none(b, t.to_account_id),
                    amount: t.amount,
                    sender: owner_or_none(b, t.from_account_id),
                },
            ],
        ),
    }
}

/// What a confirmation of transfer `id` by `actor` announces: nothing for
/// an unknown transfer, else what its step announces.
pub open spec fn confirm_effects(b: Books, actor: int, id: int, now: int, code: CodeCheck) -> EffectsView {
    if !(1 <= id <= b.transfers.len()) {
        no_effects()
    } else {
        let idx = id - 1;
        let t = b.transfers[idx];
        let owner = match account_at(b, t.from_account_id as int) {
            Some(a) => Some(a.owner),
            None => None,
        };
        match gate_spec(pending_of(t), now, actor, owner, code) {
            Some(s) => step_effects(b, idx, s, now, actor as i64),
            None => step_effects(b, idx, settle_of(b, idx, now), now, actor as i64),
        }
    }
}

/// What a confirmation answers, as a view.
pub type Answer = Result<TransferStatus, (ErrorKind, Seq<char>)>;

/// The view of an answer.
pub open spec fn answer_view(r: Result<TransferStatus, AppError>) -> Answer {
    match r {
        Ok(s) => Ok(s),
        Err(e) => Err(e@),
    }
}

/// Applies the write a confirmation phase decided to transfer row `idx`.
pub open spec fn apply_step_spec(b: Books, idx: int, step: StepView, now: int) -> (Books, Answer) {
    let t = b.transfers[idx];
    match step {
        StepView::Refuse(e) => (b, Err(e)),
        StepView::CountAttempt(n, e) => (
            with_transfer(b, idx, TransferView { otp_attempts: n, ..t }),
            Err(e),
        ),
        StepView::Reject(cause, reason, e) => {
            let b1 = with_transfer(
                b,
                idx,
                TransferView { status: TransferStatus::Rejected, reason: Some(reason), ..t },
            );
            if cause == RejectCause::InsufficientFunds {
                (freeze_check_spec(b1, t.from_account_id, now), Err(e))
            } else {
                (b1, Err(e))
            }
        },
        StepView::Hold(rule, reason) => (
            with_transfer(
                b,
                idx,
                TransferView {
                    status: TransferStatus::OnHold,
                    reason: Some(reason),
                    otp_hash: None,
                    ..t
                },
            ),
            Ok(TransferStatus::OnHold),
        ),
        StepView::Complete(nf, nt) => {
            let f = b.accounts[t.from_account_id - 1];
            let d = b.accounts[t.to_account_id - 1];
            let b1 = with_account(b, t.from_account_id - 1, AccountRec { balance: nf, ..f });
            let b2 = with_account(b1, t.to_account_id - 1, AccountRec { balance: nt, ..d });
            (
                with_transfer(
                    b2,
                    idx,
                    TransferView { status: TransferStatus::Completed, otp_hash: None, ..t },
                ),
                Ok(TransferStatus::Completed),
            )
        },
    }
}

/// The settlement of transfer row `idx` against the books.
pub open spec fn settle_of(b: Books, idx: int, now: int) -> StepView {
    let t = b.transfers[idx];
    settle_spec(
        pending_of(t),
        locked(account_at(b, t.from_account_id as int)),
        locked(account_at(b, t.to_account_id as int)),
        capped(sum_by(b.transfers, held_term(t.from_account_id, t.id))),
        capped(sum_by(b.transfers, recent_term(t.from_account_id, now - HOUR_MICROS))),
    )
}

/// A confirmation of transfer `id` by `actor` at time `now`, where `code`
/// is how the typed code compared with the stored hash.
pub open spec fn confirm_spec(b: Books, actor: int, id: int, now: int, code: CodeCheck) -> (Books, Answer) {
    if !(1 <= id <= b.transfers.len()) {
        (b, Err((ErrorKind::NotFound, "transfer "@ + int_text(id) + " not found"@)))
    } else {
        let idx = id - 1;
        let t = b.transfers[idx];
        let owner = match account_at(b, t.from_account_id as int) {
            Some(a) => Some(a.owner),
            None => None,
        };
        match gate_spec(pending_of(t), now, actor, owner, code) {
            Some(s) => apply_step_spec(b, idx, s, now),
            None => apply_step_spec(b, idx, settle_of(b, idx, now), now),
        }
    }
}

/// How the code typed for transfer `id` compares with the hash it holds.
pub open spec fn typed_code_check(b: Books, id: int, typed: Seq<char>) -> CodeCheck {
    if 1 <= id <= b.transfers.len() {
        code_check_spec(b.transfers[id - 1].otp_hash, typed)
    } else {
        CodeCheck::NoHash
    }
}

// ── Lemmas ───────────────────────────────────────────────────────────

/// Replacing one account changes the total by the change of its balance.
pub proof fn lemma_total_update(s: Seq<AccountRec>, i: int, a: AccountRec)
    requires
        0 <= i < s.len(),
    ensures
        total(s.update(i, a)) == total(s) - s[i].balance + a.balance,
    decreases s.len(),
{
    let u = s.update(i, a);
    if i == s.len() - 1 {
        assert(u.drop_last() =~= s.drop_last());
    } else {
        assert(u.drop_last() =~= s.drop_last().update(i, a));
        lemma_total_update(s.drop_last(), i, a);
    }
}

/// The sum over a prefix one element longer.
pub proof fn lemma_sum_step(ts: Seq<TransferView>, k: int, f: spec_fn(TransferView) -> int)
    requires
        0 <= k < ts.len(),
    ensures
        sum_by(ts.subrange(0, k + 1), f) == sum_by(ts.subrange(0, k), f) + f(ts[k]),
{
    assert(ts.subrange(0, k + 1).drop_last() =~= ts.subrange(0, k));
}

// ── Reading the books ────────────────────────────────────────────────

impl Ledger {
    /// Empty books.
    pub fn new() -> (l: Ledger)
        ensures
            books_ok(l@),
            l@.accounts.len() == 0,
            l@.transfers.len() == 0,
            l@.limit_changes.len() == 0,
            l@.adjustments.len() == 0,
            l@.loans.len() == 0,
            l@.repayments.len() == 0,
    {
        Ledger {
            accounts: Vec::new(),
            transfers: Vec::new(),
            limit_changes: Vec::new(),
            adjustments: Vec::new(),
            loans: Vec::new(),
            repayments: Vec::new(),
        }
    }

    /// The account with id `id`, if any.
    pub fn account(&self, id: i64) -> (r: Option<AccountRec>)
        ensures
            r == account_at(self@, id as int),
    {
        if 1 <= id && (id as u64) <= (self.accounts.len() as u64) {
            Some(self.accounts[(id - 1) as usize])
        } else {
            None
        }
    }

    /// The number of transfers recorded.
    pub fn transfer_count(&self) -> (n: usize)
        ensures
            n == self@.transfers.len(),
    {
        self.transfers.len()
    }

    /// The transfer with id `id`, if any: its status and recorded reason.
    pub fn transfer_status(&self, id: i64) -> (r: Option<(TransferStatus, Option<String>)>)
        ensures
            r is Some <==> 1 <= id <= self@.transfers.len(),
            r matches Some((s, why)) ==> s == self@.transfers[id - 1].status && opt_text(why)
                == self@.transfers[id - 1].reason,
    {
        if 1 <= id && (id as u64) <= (self.transfers.len() as u64) {
            let t = &self.transfers[(id - 1) as usize];
            Some((t.status, copy_text(&t.reason)))
        } else {
            None
        }
    }

    /// Sums `term` over the transfers (each term between 0 and `MAX_CENTS`).
    fn sum_amounts(&self, kind: u8, from: i64, except: i64, since: i64) -> (r: i64)
        requires
            books_ok(self@),
            kind < 4,
        ensures
            kind == 0 ==> r == capped(sum_by(self@.transfers, held_term(from, except))),
            kind == 1 ==> r == capped(sum_by(self@.transfers, reserved_term(from))),
            kind == 2 ==> r == capped(sum_by(self@.transfers, recent_term(from, since as int))),
            kind == 3 ==> r == capped(sum_by(self@.transfers, overdraft_term(from, since as int))),
            0 <= r <= MAX_CENTS,
    {
        let ghost f: spec_fn(TransferView) -> int = if kind == 0 {
            held_term(from, except)
        } else if kind == 1 {
            reserved_term(from)
        } else if kind == 2 {
            recent_term(from, since as int)
        } else {
            overdraft_term(from, since as int)
        };
        let ghost ts = self@.transfers;
        let n = self.transfers.len();
        let mut acc: i128 = 0;
        let mut k: usize = 0;
        while k < n
            invariant
                books_ok(self@),
                ts == self@.transfers,
                n == ts.len(),
                k <= n,
                0 <= acc <= k * MAX_CENTS,
                acc == sum_by(ts.subrange(0, k as int), f),
                kind == 0 ==> f == held_term(from, except),
                kind == 1 ==> f == reserved_term(from),
                kind == 2 ==> f == recent_term(from, since as int),
                kind == 3 ==> f == overdraft_term(from, since as int),
                kind < 4,
            decreases n - k,
        {
            let t = &self.transfers[k];
            assert(ts[k as int] == t@);
            let term: i64 = if kind == 0 {
                if t.status == TransferStatus::OnHold && t.from_account_id == from && t.id
                    != except {
                    t.amount
                } else {
                    0
                }
            } else if kind == 1 {
                if (t.status == TransferStatus::Pending || t.status == TransferStatus::OnHold)
                    && t.from_account_id == from {
                    t.amount
                } else {
                    0
                }
            } else if kind == 2 {
                if (t.status == TransferStatus::Completed || t.status == TransferStatus::OnHold)
                    && t.from_account_id == from && t.created_at > since {
                    1
                } else {
                    0
                }
            } else {
                let counts = match &t.reason {
                    Some(r) => is_overdraft_reason(r.as_str()),
                    None => false,
                };
                if t.status == TransferStatus::Rejected && t.from_account_id == from
                    && t.created_at > since && counts {
                    1
                } else {
                    0
                }
            };
            proof {
                lemma_sum_step(ts, k as int, f);
                assert(term == f(ts[k as int]));
                assert(0 <= term <= MAX_CENTS);
            }
            acc = acc + term as i128;
            k = k + 1;
        }
        proof {
            assert(ts.subrange(0, n as int) =~= ts);
        }
        if acc > MAX_CENTS as i128 {
            MAX_CENTS
        } else {
            acc as i64
        }
    }
}


/// The lock view of an account row.
fn lock_of(a: Option<AccountRec>) -> (r: Option<LockedAccount>)
    ensures
        r == locked(a),
{
    match a {
        Some(x) => Some(
            LockedAccount {
                id: x.id,
                status: x.status,
                balance: x.balance,
                transfer_limit: x.transfer_limit,
            },
        ),
        None => None,
    }
}

impl Ledger {
    /// Replaces transfer row `idx`.
    fn put_transfer(&mut self, idx: usize, t: TransferRec)
        requires
            idx < old(self)@.transfers.len(),
        ensures
            final(self)@ == with_transfer(old(self)@, idx as int, t@),
    {
        self.transfers.set(idx, t);
        proof {
            assert(self@.transfers =~= old(self)@.transfers.update(idx as int, t@));
            assert(self@ =~= with_transfer(old(self)@, idx as int, t@));
        }
    }

    /// Replaces account row `idx`.
    fn put_account(&mut self, idx: usize, a: AccountRec)
        requires
            idx < old(self)@.accounts.len(),
        ensures
            final(self)@ == with_account(old(self)@, idx as int, a),
    {
        self.accounts.set(idx, a);
        proof {
            assert(self@.transfers =~= old(self)@.transfers);
            assert(self@ =~= with_account(old(self)@, idx as int, a));
        }
    }

    /// Freezes an active account that made three or more overdraft
    /// attempts in the past day.
    /// `actor` is who caused the check; the freeze is announced to them.
    pub fn freeze_check(&mut self, account_id: i64, now: i64, actor: i64, fx: &mut Effects) -> (frozen: bool)
        requires
            books_ok(old(self)@),
            now >= 0,
        ensures
            final(self)@ == freeze_check_spec(old(self)@, account_id, now as int),
            frozen <==> final(self)@ != old(self)@,
            final(fx)@ == then(old(fx)@, freeze_effects(old(self)@, account_id, now as int, actor)),
    {
        proof {
            assert(old(fx)@.0 =~= old(fx)@.0 + Seq::empty());
            assert(old(fx)@.1 =~= old(fx)@.1 + Seq::empty());
        }
        match self.account(account_id) {
            None => false,
            Some(a) => {
                assert(1 <= account_id <= self@.accounts.len());
                let n_accounts = self.accounts.len();
                let attempts = self.sum_amounts(3, account_id, 0, now - DAY_MICROS);
                if overdraft_freeze_due(attempts) && a.status == AccountStatus::Active {
                    let idx = (account_id - 1) as usize;
                    assert(idx == account_id - 1);
                    let na = AccountRec { status: AccountStatus::Frozen, ..a };
                    assert(na.status == AccountStatus::Frozen);
                    self.put_account(idx, na);
                    assert(self@ == with_account(old(self)@, idx as int, na));
                    proof {
                        assert(self@.accounts[account_id - 1].status == AccountStatus::Frozen);
                        assert(self@.accounts[account_id - 1] != old(self)@.accounts[account_id - 1]);
                    }
                    let ghost f0 = fx@;
                    fx.emit(
                        event2(
                            Some(actor),
                            "account.frozen.suspected_hijack",
                            num_field("account_id", account_id),
                            num_field("overdraft_attempts", attempts),
                        ),
                    );
                    fx.tell(Notice::Frozen { user: actor });
                    proof {
                        assert(fx@.0 =~= f0.0 + freeze_effects(old(self)@, account_id, now as int, actor).0);
                        assert(fx@.1 =~= f0.1 + freeze_effects(old(self)@, account_id, now as int, actor).1);
                    }
                    true
                } else {
                    false
                }
            },
        }
    }

    /// Applies the write a confirmation phase decided to transfer row `idx`,
    /// `actor` confirming, and adds what it announces to `fx`.
    fn apply_step(&mut self, idx: usize, step: Step, now: i64, actor: i64, fx: &mut Effects) -> (r: Result<TransferStatus, AppError>)
        requires
            books_ok(old(self)@),
            idx < old(self)@.transfers.len(),
            now >= 0,
            step@ is Complete ==> step@ == settle_of(old(self)@, idx as int, now as int),
        ensures
            final(self)@ == apply_step_spec(old(self)@, idx as int, step@, now as int).0,
            answer_view(r) == apply_step_spec(old(self)@, idx as int, step@, now as int).1,
            final(fx)@ == then(old(fx)@, step_effects(old(self)@, idx as int, step@, now as int, actor)),
    {
        let ghost b = self@;
        let ghost f0 = fx@;
        let ghost sv = step@;
        let old_t = self.transfers[idx].duplicate();
        assert(old_t@ == b.transfers[idx as int]);
        let tid = old_t.id;
        let amount = old_t.amount;
        match step {
            Step::Refuse(e) => {
                proof {
                    assert(fx@.0 =~= f0.0 + Seq::empty());
                    assert(fx@.1 =~= f0.1 + Seq::empty());
                }
                Err(e)
            },
            Step::CountAttempt { attempts, error } => {
                fx.emit(event2(Some(actor), "transfer.otp_failed", num_field("transfer_id", tid), num_field("attempt", attempts as i64)));
                self.put_transfer(idx, TransferRec { otp_attempts: attempts, ..old_t });
                Err(error)
            },
            Step::Reject { cause, reason, error } => {
                let from = old_t.from_account_id;
                let balance: i64 = match self.account(from) {
                    Some(a) => a.balance,
                    None => 0,
                };
                let held = self.sum_amounts(0, from, tid, 0);
                let e = match cause {
                    RejectCause::Expired => event1(Some(actor), "transfer.expired", num_field("transfer_id", tid)),
                    RejectCause::CodeLockout => event2(
                        Some(actor),
                        "transfer.otp_lockout",
                        num_field("transfer_id", tid),
                        num_field("attempts", old_t.otp_attempts as i64 + 1),
                    ),
                    RejectCause::SourceInactive => event2(
                        Some(actor),
                        "transfer.rejected",
                        num_field("transfer_id", tid),
                        text_field("reason", "source not active".to_owned()),
                    ),
                    RejectCause::DestinationInactive => event2(
                        Some(actor),
                        "transfer.rejected",
                        num_field("transfer_id", tid),
                        text_field("reason", "destination not active".to_owned()),
                    ),
                    RejectCause::InsufficientFunds => event4(
                        Some(actor),
                        "transfer.rejected",
                        num_field("transfer_id", tid),
                        text_field("reason", "insufficient funds".to_owned()),
                        text_field("balance", money_text(balance)),
                        text_field("amount", money_text(amount)),
                    ),
                    RejectCause::FundsReserved => event5(
                        Some(actor),
                        "transfer.rejected",
                        num_field("transfer_id", tid),
                        text_field("reason", "funds reserved by on-hold transfers".to_owned()),
                        text_field("balance", money_text(balance)),
                        text_field("reserved", money_text(held)),
                        text_field("amount", money_text(amount)),
                    ),
                };
                fx.emit(e);
                self.put_transfer(
                    idx,
                    TransferRec { status: TransferStatus::Rejected, reason: Some(reason), ..old_t },
                );
                if cause == RejectCause::InsufficientFunds {
                    proof {
                        lemma_books_ok_transfer_fields(b, idx as int, self@.transfers[idx as int]);
                    }
                    let ghost f1 = fx@;
                    self.freeze_check(from, now, actor, fx);
                    proof {
                        assert(fx@.0 =~= f0.0 + step_effects(b, idx as int, sv, now as int, actor).0);
                        assert(fx@.1 =~= f0.1 + step_effects(b, idx as int, sv, now as int, actor).1);
                    }
                } else {
                    proof {
                        assert(fx@.0 =~= f0.0 + step_effects(b, idx as int, sv, now as int, actor).0);
                        assert(fx@.1 =~= f0.1 + step_effects(b, idx as int, sv, now as int, actor).1);
                    }
                }
                Err(error)
            },
            Step::Hold { rule, reason } => {
                let why = reason.as_str().to_owned();
                fx.emit(event2(Some(actor), "transfer.held", num_field("transfer_id", tid), text_field("reason", reason.as_str().to_owned())));
                fx.tell(Notice::Held { user: actor, amount, reason: why });
                proof {
                    assert(fx@.0 =~= f0.0 + step_effects(b, idx as int, sv, now as int, actor).0);
                    assert(fx@.1 =~= f0.1 + step_effects(b, idx as int, sv, now as int, actor).1);
                }
                self.put_transfer(
                    idx,
                    TransferRec {
                        status: TransferStatus::OnHold,
                        reason: Some(reason),
                        otp_hash: None,
                        ..old_t
                    },
                );
                Ok(TransferStatus::OnHold)
            },
            Step::Complete { from_balance, to_balance } => {
                proof {
                    lemma_settle_complete_accounts(b, idx as int, now as int);
                }
                let n_accounts = self.accounts.len();
                let fi = (old_t.from_account_id - 1) as usize;
                let ti = (old_t.to_account_id - 1) as usize;
                let f = self.accounts[fi];
                let d = self.accounts[ti];
                fx.emit(
                    event4(
                        Some(actor),
                        "transfer.completed",
                        num_field("transfer_id", tid),
                        num_field("from_account_id", old_t.from_account_id),
                        num_field("to_account_id", old_t.to_account_id),
                        text_field("amount", money_text(amount)),
                    ),
                );
                fx.tell(Notice::Sent { user: actor, amount, recipient: d.owner });
                fx.tell(Notice::Received { user: d.owner, amount, sender: f.owner });
                proof {
                    assert(account_at(b, old_t.to_account_id as int) == Some(d));
                    assert(account_at(b, old_t.from_account_id as int) == Some(f));
                    assert(fx@.0 =~= f0.0 + step_effects(b, idx as int, sv, now as int, actor).0);
                    assert(fx@.1 =~= f0.1 + step_effects(b, idx as int, sv, now as int, actor).1);
                }
                self.put_account(fi, AccountRec { balance: from_balance, ..f });
                self.put_account(ti, AccountRec { balance: to_balance, ..d });
                self.put_transfer(
                    idx,
                    TransferRec { status: TransferStatus::Completed, otp_hash: None, ..old_t },
                );
                Ok(TransferStatus::Completed)
            },
        }
    }

    /// Confirms transfer `id` with the code `typed` by `actor` at `now`:
    /// the code is compared with the transfer's stored hash by argon2.
    /// What the confirmation announces is added to `fx`.
    pub fn confirm_typed(&mut self, actor: i64, id: i64, now: i64, typed: &str, fx: &mut Effects) -> (r: Result<TransferStatus, AppError>)
        requires
            books_ok(old(self)@),
            now >= 0,
        ensures
            books_ok(final(self)@),
            final(self)@ == confirm_spec(old(self)@, actor as int, id as int, now as int, typed_code_check(old(self)@, id as int, typed@)).0,
            answer_view(r) == confirm_spec(old(self)@, actor as int, id as int, now as int, typed_code_check(old(self)@, id as int, typed@)).1,
            final(fx)@ == then(
                old(fx)@,
                confirm_effects(old(self)@, actor as int, id as int, now as int, typed_code_check(old(self)@, id as int, typed@)),
            ),
    {
        let code = if 1 <= id && (id as u64) <= (self.transfers.len() as u64) {
            let t = &self.transfers[(id - 1) as usize];
            assert(self@.transfers[id - 1] == t@);
            match &t.otp_hash {
                Some(h) => code_check(Some(h.as_str()), typed),
                None => code_check(None, typed),
            }
        } else {
            CodeCheck::NoHash
        };
        self.confirm(actor, id, now, code, fx)
    }

    /// Confirms transfer `id` on behalf of `actor` at time `now`; `code` is
    /// how the typed code compared with the transfer's stored hash.
    /// What the confirmation announces is added to `fx`.
    pub fn confirm(&mut self, actor: i64, id: i64, now: i64, code: CodeCheck, fx: &mut Effects) -> (r: Result<TransferStatus, AppError>)
        requires
            books_ok(old(self)@),
            now >= 0,
        ensures
            books_ok(final(self)@),
            final(self)@ == confirm_spec(old(self)@, actor as int, id as int, now as int, code).0,
            answer_view(r) == confirm_spec(old(self)@, actor as int, id as int, now as int, code).1,
            final(fx)@ == then(old(fx)@, confirm_effects(old(self)@, actor as int, id as int, now as int, code)),
    {
        let ghost b = self@;
        proof {
            law_confirm_keeps_books_sound(b, actor as int, id as int, now as int, code);
        }
        if !(1 <= id && (id as u64) <= (self.transfers.len() as u64)) {
            let mut m = "transfer ".to_owned();
            m.append(i64_text(id).as_str());
            m.append(" not found");
            proof {
                assert(fx@.0 =~= old(fx)@.0 + Seq::empty());
                assert(fx@.1 =~= old(fx)@.1 + Seq::empty());
            }
            return Err(AppError::NotFound(m));
        }
        let idx = (id - 1) as usize;
        let pt = {
            let t = &self.transfers[idx];
            PendingTransfer {
                id: t.id,
                from_account_id: t.from_account_id,
                to_account_id: t.to_account_id,
                amount: t.amount,
                status: t.status,
                otp_attempts: t.otp_attempts,
                created_at: t.created_at,
            }
        };
        assert(pt == pending_of(b.transfers[idx as int]));
        let owner = match self.account(pt.from_account_id) {
            Some(a) => Some(a.owner),
            None => None,
        };
        match confirm_gate(&pt, now, actor, owner, code) {
            Some(step) => self.apply_step(idx, step, now, actor, fx),
            None => {
                let from = lock_of(self.account(pt.from_account_id));
                let to = lock_of(self.account(pt.to_account_id));
                let held = self.sum_amounts(0, pt.from_account_id, pt.id, 0);
                let recent = self.sum_amounts(1 + 1, pt.from_account_id, 0, now - HOUR_MICROS);
                let step = confirm_settle(&pt, from, to, held, recent);
                self.apply_step(idx, step, now, actor, fx)
            },
        }
    }
}

/// Replacing a transfer row keeps what books_ok says of the other rows.
proof fn lemma_books_ok_transfer_fields(b: Books, idx: int, t: TransferView)
    requires
        books_ok(b),
        0 <= idx < b.transfers.len(),
        t.id == b.transfers[idx].id,
        t.amount == b.transfers[idx].amount,
        t.from_account_id == b.transfers[idx].from_account_id,
        t.to_account_id == b.transfers[idx].to_account_id,
        t.otp_attempts >= 0,
    ensures
        books_ok(with_transfer(b, idx, t)),
{
    let b2 = with_transfer(b, idx, t);
    assert forall|j: int| 0 <= j < b2.transfers.len() implies {
        let u = #[trigger] b2.transfers[j];
        &&& u.id == j + 1
        &&& 0 < u.amount <= MAX_CENTS
        &&& u.from_account_id != u.to_account_id
        &&& u.otp_attempts >= 0
    } by {
        if j != idx {
            assert(b2.transfers[j] == b.transfers[j]);
        }
    }
}

/// A completing settlement found both accounts.
proof fn lemma_settle_complete_accounts(b: Books, idx: int, now: int)
    requires
        books_ok(b),
        0 <= idx < b.transfers.len(),
        settle_of(b, idx, now) is Complete,
    ensures
        ({
            let t = b.transfers[idx];
            &&& 1 <= t.from_account_id <= b.accounts.len()
            &&& 1 <= t.to_account_id <= b.accounts.len()
        }),
{
}


// ── Laws ─────────────────────────────────────────────────────────────

/// Freezing an account changes no balance and keeps the books sound.
proof fn lemma_freeze_check_sound(b: Books, account_id: i64, now: int)
    requires
        books_ok(b),
    ensures
        books_ok(freeze_check_spec(b, account_id, now)),
        total(freeze_check_spec(b, account_id, now).accounts) == total(b.accounts),
        freeze_check_spec(b, account_id, now).transfers == b.transfers,
        forall|i: int|
            0 <= i < b.accounts.len() ==> (#[trigger] freeze_check_spec(b, account_id, now).accounts[i]).balance
                == b.accounts[i].balance,
        freeze_check_spec(b, account_id, now).accounts.len() == b.accounts.len(),
{
    let b2 = freeze_check_spec(b, account_id, now);
    if b2 != b {
        let a = b.accounts[account_id - 1];
        lemma_total_update(b.accounts, account_id - 1, AccountRec { status: AccountStatus::Frozen, ..a });
        assert forall|i: int| 0 <= i < b2.accounts.len() implies {
            let x = #[trigger] b2.accounts[i];
            &&& x.id == i + 1
            &&& 0 <= x.balance <= MAX_CENTS
            &&& money_ok(x.transfer_limit as int)
            &&& x.limit_hold_seconds >= 0
        } by {
            if i != account_id - 1 {
                assert(b2.accounts[i] == b.accounts[i]);
            }
        }
    }
}

/// Every confirmation leaves the books sound: in particular no balance
/// ever becomes negative or exceeds what its column holds.
pub proof fn law_confirm_keeps_books_sound(b: Books, actor: int, id: int, now: int, code: CodeCheck)
    requires
        books_ok(b),
    ensures
        books_ok(confirm_spec(b, actor, id, now, code).0),
{
    lemma_confirm_effect(b, actor, id, now, code);
}

/// Every confirmation conserves money: the total held across all accounts
/// is the same before and after, whatever the outcome.
pub proof fn law_confirm_conserves_money(b: Books, actor: int, id: int, now: int, code: CodeCheck)
    requires
        books_ok(b),
    ensures
        total(confirm_spec(b, actor, id, now, code).0.accounts) == total(b.accounts),
{
    lemma_confirm_effect(b, actor, id, now, code);
}

/// A confirmation that does not complete its transfer moves no money:
/// every account keeps its balance, whatever else it records.
pub proof fn law_unfinished_confirm_moves_no_money(b: Books, actor: int, id: int, now: int, code: CodeCheck)
    requires
        books_ok(b),
        confirm_spec(b, actor, id, now, code).1 != Ok::<TransferStatus, (ErrorKind, Seq<char>)>(
            TransferStatus::Completed,
        ),
    ensures
        same_balances(confirm_spec(b, actor, id, now, code).0.accounts, b.accounts),
{
    lemma_confirm_effect(b, actor, id, now, code);
}

/// A pending transfer not confirmed within ten minutes of its creation is
/// rejected by the next confirmation, whoever sends it and whatever code:
/// the transfer records why, no money moves, the answer is a conflict, and
/// any later confirmation is refused as already rejected.
pub proof fn law_expired_transfer_is_rejected(
    b: Books,
    actor: int,
    id: int,
    now: int,
    code: CodeCheck,
    actor2: int,
    now2: int,
    code2: CodeCheck,
)
    requires
        books_ok(b),
        1 <= id <= b.transfers.len(),
        b.transfers[id - 1].status == TransferStatus::Pending,
        now - b.transfers[id - 1].created_at > CONFIRM_WINDOW_MICROS,
    ensures
        ({
            let (b1, r) = confirm_spec(b, actor, id, now, code);
            &&& b1.transfers[id - 1].status == TransferStatus::Rejected
            &&& b1.transfers[id - 1].reason == Some("confirmation window expired"@)
            &&& b1.accounts == b.accounts
            &&& r == Err::<TransferStatus, (ErrorKind, Seq<char>)>(
                (ErrorKind::Conflict, "the confirmation window has expired - please start the transfer again"@),
            )
            &&& confirm_spec(b1, actor2, id, now2, code2).0 == b1
            &&& confirm_spec(b1, actor2, id, now2, code2).1 == Err::<TransferStatus, (ErrorKind, Seq<char>)>(
                (ErrorKind::Conflict, "transfer is already rejected"@),
            )
        }),
{
    let b1 = confirm_spec(b, actor, id, now, code).0;
    assert(b1.transfers[id - 1].status == TransferStatus::Rejected);
    reveal_strlit("Rejected");
    reveal_strlit("rejected");
    assert(ascii_lower(TransferStatus::Rejected.spec_label()) =~= "rejected"@);
    assert("transfer is already "@ + "rejected"@ =~= "transfer is already rejected"@) by {
        reveal_strlit("transfer is already ");
        reveal_strlit("transfer is already rejected");
    }
}

/// Every confirmation that settles a transfer leaves its trail: one that
/// moves the money is audited as `transfer.completed` by the sender, who
/// and the recipient are both told; one that holds it is audited as
/// `transfer.held` and the sender is told why.
pub proof fn law_settled_confirmation_is_announced(b: Books, actor: int, id: int, now: int, code: CodeCheck)
    requires
        books_ok(b),
        confirm_spec(b, actor, id, now, code).1 is Ok,
    ensures
        ({
            let (b1, r) = confirm_spec(b, actor, id, now, code);
            let fx = confirm_effects(b, actor, id, now, code);
            let t = b.transfers[id - 1];
            &&& 1 <= id <= b.transfers.len()
            &&& fx.0.len() == 1
            &&& fx.0[0].actor == Some(actor as i64)
            &&& fx.0[0].fields[0] == num("transfer_id"@, t.id)
            &&& (r == Ok::<TransferStatus, (ErrorKind, Seq<char>)>(TransferStatus::Completed) ==> {
                &&& fx.0[0].name == "transfer.completed"@
                &&& fx.1 == seq![
                    NoticeView::Sent { user: actor as i64, amount: t.amount, recipient: owner_or_none(b, t.to_account_id) },
                    NoticeView::Received {
                        user: owner_or_none(b, t.to_account_id),
                        amount: t.amount,
                        sender: owner_or_none(b, t.from_account_id),
                    },
                ]
            })
            &&& (r == Ok::<TransferStatus, (ErrorKind, Seq<char>)>(TransferStatus::OnHold) ==> {
                &&& fx.0[0].name == "transfer.held"@
                &&& b1.transfers[id - 1].reason matches Some(why)
                &&& fx.1 == seq![NoticeView::Held { user: actor as i64, amount: t.amount, reason: why }]
            })
        }),
{
}

/// The drain rule: a confirmation, with the right code and in time, of a
/// transfer the sender can pay (also beside other held transfers) between
/// two active accounts, of less than $10,000 and not emptying the account
/// to within $49 under its limit, from a balance above $5,000 of which it
/// takes more than half, is put on hold as draining the account: the
/// answer is "on hold", the transfer records why, and no balance changes.
pub proof fn law_draining_transfer_is_held(b: Books, actor: i64, id: int, now: int)
    requires
        books_ok(b),
        1 <= id <= b.transfers.len(),
        b.transfers[id - 1].status == TransferStatus::Pending,
        now - b.transfers[id - 1].created_at <= 600_000_000,
        account_at(b, b.transfers[id - 1].from_account_id as int) matches Some(f) && ({
            let t = b.transfers[id - 1];
            &&& f.owner == actor
            &&& f.status == AccountStatus::Active
            &&& f.balance >= t.amount
            &&& f.balance - capped(sum_by(b.transfers, held_term(t.from_account_id, t.id))) >= t.amount
            &&& t.amount < 1_000_000
            &&& !(f.balance >= 500_000 && t.amount < f.transfer_limit && f.balance - t.amount <= 4_900)
            &&& f.balance > 500_000
            &&& t.amount * 2 > f.balance
        }),
        account_at(b, b.transfers[id - 1].to_account_id as int) matches Some(d) && d.status == AccountStatus::Active,
    ensures
        ({
            let (b1, r) = confirm_spec(b, actor as int, id, now, CodeCheck::Match);
            &&& r == Ok::<TransferStatus, (ErrorKind, Seq<char>)>(TransferStatus::OnHold)
            &&& b1.transfers[id - 1].status == TransferStatus::OnHold
            &&& b1.transfers[id - 1].reason == Some("drains more than half of the account balance"@)
            &&& b1.accounts == b.accounts
        }),
{
    let idx = id - 1;
    let t = b.transfers[idx];
    let f = account_at(b, t.from_account_id as int)->0;
    assert(gate_spec(pending_of(t), now, actor as int, Some(f.owner), CodeCheck::Match) is None);
    let step = settle_of(b, idx, now);
    assert(hold_rule_spec(t.amount as int, f.balance as int, f.transfer_limit as int, capped(sum_by(b.transfers, recent_term(t.from_account_id, now - HOUR_MICROS)))) == Some(HoldRule::Drain));
    assert(step == StepView::Hold(HoldRule::Drain, hold_reason_seq(HoldRule::Drain)));
}

/// The fraud rules, in order, on a confirmation with the right code and in
/// time of a transfer the sender can pay (also beside other held
/// transfers) between two active accounts: $10,000 or more is held as
/// large; else emptying a balance of at least $5,000 to within $49 while
/// under the limit is held as structuring; else taking more than half of a
/// balance above $5,000 is held as a drain; else a fourth completed or held
/// transfer within the hour is held for velocity. A held transfer moves no
/// money. With no rule matching, the transfer completes: the amount leaves
/// the source and reaches the destination.
pub proof fn law_fraud_rules_hold_in_order(b: Books, actor: i64, id: int, now: int)
    requires
        books_ok(b),
        1 <= id <= b.transfers.len(),
        b.transfers[id - 1].status == TransferStatus::Pending,
        now - b.transfers[id - 1].created_at <= 600_000_000,
        account_at(b, b.transfers[id - 1].from_account_id as int) matches Some(f) && ({
            let t = b.transfers[id - 1];
            &&& f.owner == actor
            &&& f.status == AccountStatus::Active
            &&& f.balance >= t.amount
            &&& f.balance - capped(sum_by(b.transfers, held_term(t.from_account_id, t.id))) >= t.amount
        }),
        account_at(b, b.transfers[id - 1].to_account_id as int) matches Some(d) && d.status == AccountStatus::Active
            && d.balance + b.transfers[id - 1].amount <= MAX_CENTS,
    ensures
        ({
            let t = b.transfers[id - 1];
            let f = b.accounts[t.from_account_id - 1];
            let recent = capped(sum_by(b.transfers, recent_term(t.from_account_id, now - 3_600_000_000)));
            let (b1, r) = confirm_spec(b, actor as int, id, now, CodeCheck::Match);
            let reason = if t.amount >= 1_000_000 {
                Some("large transfer (>= $10,000)"@)
            } else if f.balance >= 500_000 && t.amount < f.transfer_limit && f.balance - t.amount <= 4_900 {
                Some("possible structuring: empties the account to within $49 while staying under the limit"@)
            } else if f.balance > 500_000 && t.amount * 2 > f.balance {
                Some("drains more than half of the account balance"@)
            } else if recent >= 3 {
                Some("high velocity: 4+ transfers from this account within 1 hour"@)
            } else {
                None
            };
            &&& reason is Some ==> {
                &&& r == Ok::<TransferStatus, (ErrorKind, Seq<char>)>(TransferStatus::OnHold)
                &&& b1.transfers[id - 1].reason == reason
                &&& b1.accounts == b.accounts
            }
            &&& reason is None ==> {
                &&& r == Ok::<TransferStatus, (ErrorKind, Seq<char>)>(TransferStatus::Completed)
                &&& b1.accounts[t.from_account_id - 1].balance == f.balance - t.amount
                &&& b1.accounts[t.to_account_id - 1].balance == b.accounts[t.to_account_id - 1].balance + t.amount
            }
        }),
{
    let idx = id - 1;
    let t = b.transfers[idx];
    let f = account_at(b, t.from_account_id as int)->0;
    assert(gate_spec(pending_of(t), now, actor as int, Some(f.owner), CodeCheck::Match) is None);
}

/// A transfer that is no longer pending is never processed again: a
/// confirmation of it changes nothing and is refused as a conflict.
pub proof fn law_settled_transfer_is_not_reprocessed(b: Books, actor: int, id: int, now: int, code: CodeCheck)
    requires
        books_ok(b),
        1 <= id <= b.transfers.len(),
        b.transfers[id - 1].status != TransferStatus::Pending,
    ensures
        confirm_spec(b, actor, id, now, code).0 == b,
        confirm_spec(b, actor, id, now, code).1 matches Err(e) && e.0 == ErrorKind::Conflict,
{
}

/// Confirming a transfer twice pays out at most once: after a confirmation
/// that completed, any second confirmation of the same transfer, by anyone
/// and with any code, changes nothing and is refused.
pub proof fn law_confirm_pays_out_at_most_once(
    b: Books,
    actor1: int,
    actor2: int,
    id: int,
    now1: int,
    now2: int,
    code1: CodeCheck,
    code2: CodeCheck,
)
    requires
        books_ok(b),
        confirm_spec(b, actor1, id, now1, code1).1 == Ok::<TransferStatus, (ErrorKind, Seq<char>)>(
            TransferStatus::Completed,
        ),
    ensures
        ({
            let b1 = confirm_spec(b, actor1, id, now1, code1).0;
            &&& confirm_spec(b1, actor2, id, now2, code2).0 == b1
            &&& confirm_spec(b1, actor2, id, now2, code2).1 is Err
        }),
{
    lemma_confirm_effect(b, actor1, id, now1, code1);
    let b1 = confirm_spec(b, actor1, id, now1, code1).0;
    law_settled_transfer_is_not_reprocessed(b1, actor2, id, now2, code2);
}

/// A confirmation that completes debits the source by the amount and
/// credits the destination by the same amount, touches no other account,
/// and completes only when the source could pay it from money not reserved
/// by other held transfers.
pub proof fn law_completed_confirm_moves_exactly_the_amount(
    b: Books,
    actor: int,
    id: int,
    now: int,
    code: CodeCheck,
)
    requires
        books_ok(b),
        confirm_spec(b, actor, id, now, code).1 == Ok::<TransferStatus, (ErrorKind, Seq<char>)>(
            TransferStatus::Completed,
        ),
    ensures
        ({
            let t = b.transfers[id - 1];
            let b1 = confirm_spec(b, actor, id, now, code).0;
            let fi = t.from_account_id - 1;
            let ti = t.to_account_id - 1;
            &&& 1 <= id <= b.transfers.len()
            &&& t.status == TransferStatus::Pending
            &&& b1.transfers[id - 1].status == TransferStatus::Completed
            &&& b1.accounts[fi].balance == b.accounts[fi].balance - t.amount
            &&& b1.accounts[ti].balance == b.accounts[ti].balance + t.amount
            &&& b.accounts[fi].balance - capped(sum_by(b.transfers, held_term(t.from_account_id, t.id))) >= t.amount
            &&& b1.accounts.len() == b.accounts.len()
            &&& forall|i: int|
                0 <= i < b.accounts.len() && i != fi && i != ti ==> #[trigger] b1.accounts[i]
                    == b.accounts[i]
        }),
{
    lemma_confirm_effect(b, actor, id, now, code);
}

/// What a confirmation does to the books, case by case.
proof fn lemma_confirm_effect(b: Books, actor: int, id: int, now: int, code: CodeCheck)
    requires
        books_ok(b),
    ensures
        ({
            let (b1, r) = confirm_spec(b, actor, id, now, code);
            &&& books_ok(b1)
            &&& total(b1.accounts) == total(b.accounts)
            &&& b1.accounts.len() == b.accounts.len()
            &&& b1.transfers.len() == b.transfers.len()
            &&& (r != Ok::<TransferStatus, (ErrorKind, Seq<char>)>(TransferStatus::Completed) ==> same_balances(
                b1.accounts,
                b.accounts,
            ))
            &&& (r == Ok::<TransferStatus, (ErrorKind, Seq<char>)>(TransferStatus::Completed) ==> {
                let t = b.transfers[id - 1];
                let fi = t.from_account_id - 1;
                let ti = t.to_account_id - 1;
                &&& 1 <= id <= b.transfers.len()
                &&& t.status == TransferStatus::Pending
                &&& b1.transfers[id - 1].status == TransferStatus::Completed
                &&& 0 <= fi < b.accounts.len()
                &&& 0 <= ti < b.accounts.len()
                &&& b1.accounts[fi].balance == b.accounts[fi].balance - t.amount
                &&& b1.accounts[ti].balance == b.accounts[ti].balance + t.amount
                &&& b.accounts[fi].balance - capped(sum_by(b.transfers, held_term(t.from_account_id, t.id))) >= t.amount
                &&& forall|i: int|
                    0 <= i < b.accounts.len() && i != fi && i != ti ==> #[trigger] b1.accounts[i]
                        == b.accounts[i]
            })
        }),
{
    if 1 <= id <= b.transfers.len() {
        let idx = id - 1;
        let t = b.transfers[idx];
        let owner = match account_at(b, t.from_account_id as int) {
            Some(a) => Some(a.owner),
            None => None,
        };
        let step = match gate_spec(pending_of(t), now, actor, owner, code) {
            Some(s) => s,
            None => settle_of(b, idx, now),
        };
        assert(confirm_spec(b, actor, id, now, code) == apply_step_spec(b, idx, step, now));
        match step {
            StepView::Refuse(e) => {},
            StepView::CountAttempt(n, e) => {
                lemma_books_ok_transfer_fields(b, idx, TransferView { otp_attempts: n, ..t });
            },
            StepView::Reject(cause, reason, e) => {
                let t1 = TransferView { status: TransferStatus::Rejected, reason: Some(reason), ..t };
                lemma_books_ok_transfer_fields(b, idx, t1);
                let b1 = with_transfer(b, idx, t1);
                lemma_freeze_check_sound(b1, t.from_account_id, now);
            },
            StepView::Hold(rule, reason) => {
                lemma_books_ok_transfer_fields(
                    b,
                    idx,
                    TransferView {
                        status: TransferStatus::OnHold,
                        reason: Some(reason),
                        otp_hash: None,
                        ..t
                    },
                );
            },
            StepView::Complete(nf, nt) => {
                assert(gate_spec(pending_of(t), now, actor, owner, code) is None);
                assert(step == settle_of(b, idx, now));
                let fi = t.from_account_id - 1;
                let ti = t.to_account_id - 1;
                let f = b.accounts[fi];
                let d = b.accounts[ti];
                let b1 = with_account(b, fi, AccountRec { balance: nf, ..f });
                let b2 = with_account(b1, ti, AccountRec { balance: nt, ..d });
                let t2 = TransferView { status: TransferStatus::Completed, otp_hash: None, ..t };
                lemma_total_update(b.accounts, fi, AccountRec { balance: nf, ..f });
                assert(b1.accounts[ti] == d);
                lemma_total_update(b1.accounts, ti, AccountRec { balance: nt, ..d });
                assert forall|i: int| 0 <= i < b2.accounts.len() implies {
                    let x = #[trigger] b2.accounts[i];
                    &&& x.id == i + 1
                    &&& 0 <= x.balance <= MAX_CENTS
                    &&& money_ok(x.transfer_limit as int)
                    &&& x.limit_hold_seconds >= 0
                } by {
                    if i != fi && i != ti {
                        assert(b2.accounts[i] == b.accounts[i]);
                    }
                }
                assert(books_ok(b2));
                lemma_books_ok_transfer_fields(b2, idx, t2);
            },
        }
    }
}


// ── Accounts and balance adjustments ────────────────────────────────

/// The error a status action answers for an account that does not exist:
/// closing reads the account first and reports it missing; the other
/// actions update only an account in the right state and report the state.
pub open spec fn missing_account_spec(action: StatusAction, id: int) -> (ErrorKind, Seq<char>) {
    match action {
        StatusAction::Close => (ErrorKind::NotFound, "account "@ + int_text(id) + " not found"@),
        StatusAction::Approve => (ErrorKind::Conflict, "account is not pending approval"@),
        StatusAction::Freeze => (ErrorKind::Conflict, "account is not active and cannot be frozen"@),
        StatusAction::Unfreeze => (ErrorKind::Conflict, "account is not frozen and cannot be unfrozen"@),
    }
}

/// The view of an account-state result.
pub open spec fn state_answer(r: Result<AccountStatus, AppError>) -> Result<AccountStatus, (ErrorKind, Seq<char>)> {
    match r {
        Ok(s) => Ok(s),
        Err(e) => Err(e@),
    }
}

/// A staff status action on account `id`.
pub open spec fn status_change_spec(b: Books, id: int, action: StatusAction) -> (Books, Result<AccountStatus, (ErrorKind, Seq<char>)>) {
    match account_at(b, id) {
        None => (b, Err(missing_account_spec(action, id))),
        Some(a) => match status_action_spec(action, a.status, a.balance as int) {
            Ok(st) => (with_account(b, id - 1, AccountRec { status: st, ..a }), Ok(st)),
            Err(e) => (b, Err(e)),
        },
    }
}

/// Opening an account: a new row with a zero balance, active when staff
/// open it and pending approval when a customer does.
pub open spec fn open_account_spec(b: Books, owner: i64, kind: AccountType, approved: bool, transfer_limit: i64, hold_seconds: i32, number: u64) -> Books {
    Books {
        accounts: b.accounts.push(
            AccountRec {
                id: (b.accounts.len() + 1) as i64,
                owner,
                kind,
                status: crate::accounts::open_status_spec(approved),
                balance: 0,
                transfer_limit,
                limit_hold_seconds: hold_seconds,
                number,
            },
        ),
        ..b
    }
}

/// Every number in `drawn` is a ten-digit account number already in use.
pub open spec fn all_taken(b: Books, drawn: Seq<u64>) -> bool {
    forall|i: int| 0 <= i < drawn.len() ==> 1_000_000_000 <= #[trigger] drawn[i] <= 9_999_999_999 && number_taken(b, drawn[i])
}

/// Whether some account already has `number`.
pub open spec fn number_taken(b: Books, number: u64) -> bool {
    exists|i: int| 0 <= i < b.accounts.len() && (#[trigger] b.accounts[i]).number == number
}

/// The account with `number`.
pub open spec fn account_by_number_spec(b: Books, number: u64) -> Option<i64> {
    if number_taken(b, number) {
        Some(((choose|i: int| 0 <= i < b.accounts.len() && (#[trigger] b.accounts[i]).number == number) + 1) as i64)
    } else {
        None
    }
}

/// A direct staff adjustment of account `id` by `delta`.
pub open spec fn adjust_balance_spec(b: Books, id: int, delta: int) -> (Books, Result<i64, (ErrorKind, Seq<char>)>) {
    let bal = match account_at(b, id) {
        Some(a) => Some(a.balance),
        None => None,
    };
    match adjust_spec(id, bal, delta) {
        Ok(nb) => (with_account(b, id - 1, AccountRec { balance: nb, ..b.accounts[id - 1] }), Ok(nb)),
        Err(e) => (b, Err(e)),
    }
}

/// The view of an optional-amount result.
pub open spec fn maybe_amount_answer(r: Result<Option<i64>, AppError>) -> Result<Option<i64>, (ErrorKind, Seq<char>)> {
    match r {
        Ok(x) => Ok(x),
        Err(e) => Err(e@),
    }
}

/// A staff adjustment request: small ones apply at once (the answer is the
/// new balance), large ones are parked for the other staff role (the
/// answer is `None`).
pub open spec fn request_adjustment_spec(b: Books, id: int, delta: int, requester: i64, role: Role) -> (Books, Result<Option<i64>, (ErrorKind, Seq<char>)>) {
    match adjustment_route_spec(role, delta) {
        Err(e) => (b, Err(e)),
        Ok(AdjustRoute::Immediate) => {
            let (b1, r) = adjust_balance_spec(b, id, delta);
            (b1, match r {
                Ok(nb) => Ok(Some(nb)),
                Err(e) => Err(e),
            })
        },
        Ok(AdjustRoute::Parked) => if account_at(b, id) is None {
            (b, Err((ErrorKind::NotFound, "account "@ + int_text(id) + " not found"@)))
        } else {
            (
                Books {
                    adjustments: b.adjustments.push(
                        AdjustmentRec {
                            id: (b.adjustments.len() + 1) as i64,
                            account_id: id as i64,
                            delta: delta as i64,
                            requested_by: requester,
                            requested_role: role,
                            approved_by: None,
                        },
                    ),
                    ..b
                },
                Ok(None),
            )
        },
    }
}

/// The parked adjustment `rid`, if it is still open.
pub open spec fn open_request(b: Books, rid: int) -> Option<ParkedAdjustment> {
    if 1 <= rid <= b.adjustments.len() && b.adjustments[rid - 1].approved_by is None {
        let q = b.adjustments[rid - 1];
        Some(
            ParkedAdjustment {
                account_id: q.account_id,
                delta: q.delta,
                requested_by: q.requested_by,
                requested_role: q.requested_role,
            },
        )
    } else {
        None
    }
}

/// The second approval of parked adjustment `rid`.
pub open spec fn approve_adjustment_ledger_spec(b: Books, rid: int, approver: i64, role: Role) -> (Books, Result<i64, (ErrorKind, Seq<char>)>) {
    let req = open_request(b, rid);
    let bal = match req {
        Some(q) => match account_at(b, q.account_id as int) {
            Some(a) => Some(a.balance),
            None => None,
        },
        None => None,
    };
    match approve_adjustment_spec(approver as int, role, req, bal) {
        Ok(nb) => {
            let q = b.adjustments[rid - 1];
            let a = b.accounts[q.account_id - 1];
            let b1 = with_account(b, q.account_id - 1, AccountRec { balance: nb, ..a });
            (
                Books {
                    adjustments: b1.adjustments.update(
                        rid - 1,
                        AdjustmentRec { approved_by: Some(approver), ..q },
                    ),
                    ..b1
                },
                Ok(nb),
            )
        },
        Err(e) => (b, Err(e)),
    }
}

impl Ledger {
    /// Whether some account already has `number`.
    fn has_number(&self, number: u64) -> (b: bool)
        ensures
            b == number_taken(self@, number),
    {
        let n = self.accounts.len();
        let mut i: usize = 0;
        while i < n
            invariant
                n == self@.accounts.len(),
                i <= n,
                forall|k: int| 0 <= k < i ==> (#[trigger] self@.accounts[k]).number != number,
            decreases n - i,
        {
            if self.accounts[i].number == number {
                assert(self@.accounts[i as int].number == number);
                return true;
            }
            i = i + 1;
        }
        false
    }

    /// The id of the account with `number`, if any.
    pub fn account_by_number(&self, number: u64) -> (r: Option<i64>)
        requires
            books_ok(self@),
        ensures
            r == account_by_number_spec(self@, number),
            r matches Some(id) ==> 1 <= id <= self@.accounts.len() && self@.accounts[id - 1].number == number,
    {
        let n = self.accounts.len();
        let mut i: usize = 0;
        while i < n
            invariant
                books_ok(self@),
                n == self@.accounts.len(),
                i <= n,
                forall|k: int| 0 <= k < i ==> (#[trigger] self@.accounts[k]).number != number,
            decreases n - i,
        {
            if self.accounts[i].number == number {
                proof {
                    let b = self@;
                    assert(b.accounts[i as int].number == number);
                    assert(number_taken(b, number));
                    let c = choose|k: int| 0 <= k < b.accounts.len() && (#[trigger] b.accounts[k]).number == number;
                    if c != i {
                        if c < i {
                            assert(b.accounts[c].number != b.accounts[i as int].number);
                        } else {
                            assert(b.accounts[i as int].number != b.accounts[c].number);
                        }
                    }
                }
                return Some(i as i64 + 1);
            }
            i = i + 1;
        }
        None
    }

    /// Opens an account for `owner` under a fresh random account number;
    /// returns its id. A number already in use is drawn again, at most three
    /// draws in all: it fails only when all three were in use, so never on
    /// empty books.
    pub fn open_account(&mut self, owner: i64, kind: AccountType, approved: bool, transfer_limit: i64, hold_seconds: i32) -> (r: Result<i64, AppError>)
        requires
            books_ok(old(self)@),
            old(self)@.accounts.len() + 1 < i64::MAX,
            money_ok(transfer_limit as int),
            hold_seconds >= 0,
        ensures
            books_ok(final(self)@),
            r matches Ok(id) ==> {
                let number = final(self)@.accounts.last().number;
                &&& final(self)@ == open_account_spec(old(self)@, owner, kind, approved, transfer_limit, hold_seconds, number)
                &&& !number_taken(old(self)@, number)
                &&& id == final(self)@.accounts.len()
            },
            r matches Err(e) ==> final(self)@ == old(self)@ && e@ == (ErrorKind::Internal, "failed to open account after 3 attempts"@),
            r is Err ==> exists|drawn: Seq<u64>| #[trigger] all_taken(old(self)@, drawn) && drawn.len() == 3,
            old(self)@.accounts.len() == 0 ==> r is Ok,
    {
        let mut attempt: u32 = 0;
        let ghost mut drawn: Seq<u64> = Seq::empty();
        while attempt < 3
            invariant
                self@ == old(self)@,
                books_ok(self@),
                old(self)@.accounts.len() + 1 < i64::MAX,
                money_ok(transfer_limit as int),
                hold_seconds >= 0,
                attempt <= 3,
                drawn.len() == attempt,
                all_taken(old(self)@, drawn),
            decreases 3 - attempt,
        {
            let number = crate::otp::new_account_number();
            match self.open_with_number(owner, kind, approved, transfer_limit, hold_seconds, number) {
                Some(id) => return Ok(id),
                None => {},
            }
            proof {
                drawn = drawn.push(number);
            }
            attempt = attempt + 1;
        }
        proof {
            assert(number_taken(old(self)@, drawn[0]));
            assert(old(self)@.accounts.len() > 0);
        }
        Err(AppError::Internal("failed to open account after 3 attempts".to_owned()))
    }

    /// Opens an account for `owner` under account number `number`, unless
    /// an account already has it; returns the new account's id.
    pub fn open_with_number(
        &mut self,
        owner: i64,
        kind: AccountType,
        approved: bool,
        transfer_limit: i64,
        hold_seconds: i32,
        number: u64,
    ) -> (r: Option<i64>)
        requires
            books_ok(old(self)@),
            old(self)@.accounts.len() + 1 < i64::MAX,
            money_ok(transfer_limit as int),
            hold_seconds >= 0,
            1_000_000_000 <= number <= 9_999_999_999,
        ensures
            books_ok(final(self)@),
            number_taken(old(self)@, number) ==> r is None && final(self)@ == old(self)@,
            !number_taken(old(self)@, number) ==> r == Some((old(self)@.accounts.len() + 1) as i64)
                && final(self)@ == open_account_spec(old(self)@, owner, kind, approved, transfer_limit, hold_seconds, number),
    {
        if self.has_number(number) {
            return None;
        }
        let id = self.accounts.len() as i64 + 1;
        let status = crate::accounts::open_status(approved);
        let ghost before = self@;
        self.accounts.push(
            AccountRec {
                id,
                owner,
                kind,
                status,
                balance: 0,
                transfer_limit,
                limit_hold_seconds: hold_seconds,
                number,
            },
        );
        proof {
            assert(self@ =~= open_account_spec(before, owner, kind, approved, transfer_limit, hold_seconds, number));
            let b = self@;
            assert forall|i: int, j: int| 0 <= i < j < b.accounts.len() implies (#[trigger] b.accounts[i]).number != (#[trigger] b.accounts[j]).number by {
                if j == b.accounts.len() - 1 {
                    assert(b.accounts[i] == before.accounts[i]);
                } else {
                    assert(b.accounts[i] == before.accounts[i]);
                    assert(b.accounts[j] == before.accounts[j]);
                }
            }
            assert forall|i: int| 0 <= i < b.accounts.len() implies {
                let a = #[trigger] b.accounts[i];
                &&& a.id == i + 1
                &&& 0 <= a.balance <= MAX_CENTS
                &&& money_ok(a.transfer_limit as int)
                &&& a.limit_hold_seconds >= 0
                &&& 1_000_000_000 <= a.number <= 9_999_999_999
            } by {
                if i < before.accounts.len() {
                    assert(b.accounts[i] == before.accounts[i]);
                }
            }
        }
        Some(id)
    }

    /// Applies a staff status action to account `id`.
    pub fn change_status(&mut self, id: i64, action: StatusAction) -> (r: Result<AccountStatus, AppError>)
        requires
            books_ok(old(self)@),
        ensures
            books_ok(final(self)@),
            final(self)@ == status_change_spec(old(self)@, id as int, action).0,
            state_answer(r) == status_change_spec(old(self)@, id as int, action).1,
            total(final(self)@.accounts) == total(old(self)@.accounts),
    {
        match self.account(id) {
            None => {
                match action {
                    StatusAction::Close => {
                        let mut m = "account ".to_owned();
                        m.append(i64_text(id).as_str());
                        m.append(" not found");
                        Err(AppError::NotFound(m))
                    },
                    StatusAction::Approve => Err(AppError::Conflict("account is not pending approval".to_owned())),
                    StatusAction::Freeze => Err(AppError::Conflict("account is not active and cannot be frozen".to_owned())),
                    StatusAction::Unfreeze => Err(AppError::Conflict("account is not frozen and cannot be unfrozen".to_owned())),
                }
            },
            Some(a) => {
                let n = self.accounts.len();
                match status_action(action, a.status, a.balance) {
                    Ok(st) => {
                        proof {
                            lemma_total_update(self@.accounts, id - 1, AccountRec { status: st, ..a });
                            lemma_books_ok_account(self@, id - 1, AccountRec { status: st, ..a });
                        }
                        self.put_account((id - 1) as usize, AccountRec { status: st, ..a });
                        Ok(st)
                    },
                    Err(e) => Err(e),
                }
            },
        }
    }

    /// Adjusts the balance of account `id` by `delta` (staff, direct) and
    /// returns the new balance.
    pub fn adjust_balance(&mut self, id: i64, delta: i64) -> (r: Result<i64, AppError>)
        requires
            books_ok(old(self)@),
            money_ok(delta as int),
        ensures
            books_ok(final(self)@),
            final(self)@ == adjust_balance_spec(old(self)@, id as int, delta as int).0,
            crate::accounts::amount_result_view(r) == adjust_balance_spec(old(self)@, id as int, delta as int).1,
    {
        let bal = match self.account(id) {
            Some(a) => Some(a.balance),
            None => None,
        };
        let n = self.accounts.len();
        match adjust_decision(id, bal, delta) {
            Ok(nb) => {
                let a = self.accounts[(id - 1) as usize];
                proof {
                    lemma_books_ok_account(self@, id - 1, AccountRec { balance: nb, ..a });
                }
                self.put_account((id - 1) as usize, AccountRec { balance: nb, ..a });
                Ok(nb)
            },
            Err(e) => Err(e),
        }
    }

    /// A staff adjustment request: applied at once when small, else parked.
    pub fn request_adjustment(&mut self, id: i64, delta: i64, requester: i64, role: Role) -> (r: Result<Option<i64>, AppError>)
        requires
            books_ok(old(self)@),
            money_ok(delta as int),
            old(self)@.adjustments.len() + 1 < i64::MAX,
        ensures
            books_ok(final(self)@),
            final(self)@ == request_adjustment_spec(old(self)@, id as int, delta as int, requester, role).0,
            maybe_amount_answer(r) == request_adjustment_spec(old(self)@, id as int, delta as int, requester, role).1,
    {
        match adjustment_route(role, delta) {
            Err(e) => Err(e),
            Ok(AdjustRoute::Immediate) => match self.adjust_balance(id, delta) {
                Ok(nb) => Ok(Some(nb)),
                Err(e) => Err(e),
            },
            Ok(AdjustRoute::Parked) => {
                if self.account(id).is_none() {
                    let mut m = "account ".to_owned();
                    m.append(i64_text(id).as_str());
                    m.append(" not found");
                    return Err(AppError::NotFound(m));
                }
                let rid = self.adjustments.len() as i64 + 1;
                self.adjustments.push(
                    AdjustmentRec {
                        id: rid,
                        account_id: id,
                        delta,
                        requested_by: requester,
                        requested_role: role,
                        approved_by: None,
                    },
                );
                proof {
                    assert(self@ =~= request_adjustment_spec(old(self)@, id as int, delta as int, requester, role).0);
                }
                Ok(None)
            },
        }
    }

    /// The second approval of parked adjustment `rid`; returns the new balance.
    pub fn approve_adjustment(&mut self, rid: i64, approver: i64, role: Role) -> (r: Result<i64, AppError>)
        requires
            books_ok(old(self)@),
        ensures
            books_ok(final(self)@),
            final(self)@ == approve_adjustment_ledger_spec(old(self)@, rid as int, approver, role).0,
            crate::accounts::amount_result_view(r) == approve_adjustment_ledger_spec(old(self)@, rid as int, approver, role).1,
    {
        let req = if 1 <= rid && (rid as u64) <= (self.adjustments.len() as u64) && self.adjustments[(rid - 1) as usize].approved_by.is_none() {
            let q = self.adjustments[(rid - 1) as usize];
            Some(ParkedAdjustment {
                account_id: q.account_id,
                delta: q.delta,
                requested_by: q.requested_by,
                requested_role: q.requested_role,
            })
        } else {
            None
        };
        let bal = match req {
            Some(q) => match self.account(q.account_id) {
                Some(a) => Some(a.balance),
                None => None,
            },
            None => None,
        };
        match approve_adjustment_decision(approver, role, req, bal) {
            Ok(nb) => {
                let q = self.adjustments[(rid - 1) as usize];
                let n = self.accounts.len();
                let a = self.accounts[(q.account_id - 1) as usize];
                proof {
                    lemma_books_ok_account(self@, q.account_id - 1, AccountRec { balance: nb, ..a });
                }
                self.put_account((q.account_id - 1) as usize, AccountRec { balance: nb, ..a });
                self.adjustments.set((rid - 1) as usize, AdjustmentRec { approved_by: Some(approver), ..q });
                proof {
                    assert(self@ =~= approve_adjustment_ledger_spec(old(self)@, rid as int, approver, role).0);
                }
                Ok(nb)
            },
            Err(e) => Err(e),
        }
    }

    /// The number of active accounts.
    pub fn count_active(&self) -> (n: usize)
        ensures
            n == count_active_spec(self@.accounts),
    {
        let mut n: usize = 0;
        let mut i: usize = 0;
        while i < self.accounts.len()
            invariant
                i <= self.accounts@.len(),
                n <= i,
                n == count_active_spec(self@.accounts.subrange(0, i as int)),
            decreases self.accounts@.len() - i,
        {
            proof {
                assert(self@.accounts.subrange(0, i + 1).drop_last() =~= self@.accounts.subrange(0, i as int));
            }
            if self.accounts[i].status == AccountStatus::Active {
                n = n + 1;
            }
            i = i + 1;
        }
        proof {
            assert(self@.accounts.subrange(0, i as int) =~= self@.accounts);
        }
        n
    }

    /// The money held in active accounts.
    pub fn total_deposits(&self) -> (t: i128)
        requires
            books_ok(self@),
        ensures
            t == deposits_spec(self@.accounts),
    {
        let mut t: i128 = 0;
        let mut i: usize = 0;
        while i < self.accounts.len()
            invariant
                books_ok(self@),
                i <= self.accounts@.len(),
                0 <= t <= i * MAX_CENTS,
                t == deposits_spec(self@.accounts.subrange(0, i as int)),
            decreases self.accounts@.len() - i,
        {
            proof {
                assert(self@.accounts.subrange(0, i + 1).drop_last() =~= self@.accounts.subrange(0, i as int));
            }
            let a = self.accounts[i];
            assert(a == self@.accounts[i as int]);
            if a.status == AccountStatus::Active {
                t = t + a.balance as i128;
            }
            i = i + 1;
        }
        proof {
            assert(self@.accounts.subrange(0, i as int) =~= self@.accounts);
        }
        t
    }
}

/// The number of active accounts.
pub open spec fn count_active_spec(accounts: Seq<AccountRec>) -> int
    decreases accounts.len(),
{
    if accounts.len() == 0 {
        0
    } else {
        count_active_spec(accounts.drop_last()) + if accounts.last().status == AccountStatus::Active {
            1int
        } else {
            0int
        }
    }
}

/// The money held in active accounts.
pub open spec fn deposits_spec(accounts: Seq<AccountRec>) -> int
    decreases accounts.len(),
{
    if accounts.len() == 0 {
        0
    } else {
        deposits_spec(accounts.drop_last()) + if accounts.last().status == AccountStatus::Active {
            accounts.last().balance as int
        } else {
            0int
        }
    }
}

/// Replacing an account row with one of the same id, a funded balance and
/// a limit that fits keeps the books sound.
proof fn lemma_books_ok_account(b: Books, idx: int, a: AccountRec)
    requires
        books_ok(b),
        0 <= idx < b.accounts.len(),
        a.id == b.accounts[idx].id,
        0 <= a.balance <= MAX_CENTS,
        money_ok(a.transfer_limit as int),
        a.limit_hold_seconds >= 0,
        a.number == b.accounts[idx].number,
    ensures
        books_ok(with_account(b, idx, a)),
{
    let b2 = with_account(b, idx, a);
    assert forall|i: int| 0 <= i < b2.accounts.len() implies {
        let x = #[trigger] b2.accounts[i];
        &&& x.id == i + 1
        &&& 0 <= x.balance <= MAX_CENTS
        &&& money_ok(x.transfer_limit as int)
        &&& x.limit_hold_seconds >= 0
        &&& 1_000_000_000 <= x.number <= 9_999_999_999
    } by {
        if i != idx {
            assert(b2.accounts[i] == b.accounts[i]);
        }
    }
    assert forall|i: int, j: int| 0 <= i < j < b2.accounts.len() implies (#[trigger] b2.accounts[i]).number != (#[trigger] b2.accounts[j]).number by {
        assert(b2.accounts[i].number == b.accounts[i].number);
        assert(b2.accounts[j].number == b.accounts[j].number);
    }
}

/// A direct adjustment changes the money in the bank by exactly its delta.
pub proof fn law_adjustment_changes_total_by_delta(b: Books, id: int, delta: int)
    requires
        books_ok(b),
        adjust_balance_spec(b, id, delta).1 is Ok,
    ensures
        total(adjust_balance_spec(b, id, delta).0.accounts) == total(b.accounts) + delta,
        adjust_balance_spec(b, id, delta).1->Ok_0 >= 0,
{
    let a = b.accounts[id - 1];
    lemma_total_update(b.accounts, id - 1, AccountRec { balance: (a.balance + delta) as i64, ..a });
}

/// A staff adjustment: refused for a customer and for a zero delta; one
/// of at most $1,000 either way is applied at once, exactly as a direct
/// adjustment; a larger one changes no balance and parks one request,
/// holding the account, the delta and who asked in which role.
pub proof fn law_adjustment_routing(b: Books, id: int, delta: int, requester: i64, role: Role)
    requires
        books_ok(b),
        money_ok(delta),
    ensures
        ({
            let (b1, r) = request_adjustment_spec(b, id, delta, requester, role);
            &&& role == Role::Customer ==> b1 == b && r == Err::<Option<i64>, (ErrorKind, Seq<char>)>(
                (ErrorKind::Forbidden, Seq::empty()),
            )
            &&& (role != Role::Customer && delta == 0) ==> b1 == b && r == Err::<Option<i64>, (ErrorKind, Seq<char>)>(
                (ErrorKind::BadRequest, "adjustment cannot be zero"@),
            )
            &&& (role != Role::Customer && delta != 0 && -ADJUSTMENT_DUAL_CONTROL_CENTS <= delta
                <= ADJUSTMENT_DUAL_CONTROL_CENTS) ==> {
                let (b2, r2) = adjust_balance_spec(b, id, delta);
                &&& b1 == b2
                &&& r == match r2 {
                    Ok(nb) => Ok::<Option<i64>, (ErrorKind, Seq<char>)>(Some(nb)),
                    Err(e) => Err(e),
                }
            }
            &&& (role != Role::Customer && (delta < -ADJUSTMENT_DUAL_CONTROL_CENTS
                || delta > ADJUSTMENT_DUAL_CONTROL_CENTS) && account_at(b, id) is Some) ==> {
                &&& r == Ok::<Option<i64>, (ErrorKind, Seq<char>)>(None)
                &&& b1.accounts == b.accounts
                &&& b1.adjustments.len() == b.adjustments.len() + 1
                &&& b1.adjustments.last().account_id == id
                &&& b1.adjustments.last().delta == delta
                &&& b1.adjustments.last().requested_by == requester
                &&& b1.adjustments.last().requested_role == role
                &&& b1.adjustments.last().approved_by is None
            }
        }),
{
}

/// A staff status action moves no money.
pub proof fn law_status_change_moves_no_money(b: Books, id: int, action: StatusAction)
    requires
        books_ok(b),
    ensures
        total(status_change_spec(b, id, action).0.accounts) == total(b.accounts),
{
    if let Some(a) = account_at(b, id) {
        if let Ok(st) = status_action_spec(action, a.status, a.balance as int) {
            lemma_total_update(b.accounts, id - 1, AccountRec { status: st, ..a });
        }
    }
}

/// A second approval applies the parked delta to the balance exactly once:
/// the request is marked approved, so approving it again is refused.
pub proof fn law_parked_adjustment_applies_once(b: Books, rid: int, approver: i64, role: Role, approver2: i64, role2: Role)
    requires
        books_ok(b),
        approve_adjustment_ledger_spec(b, rid, approver, role).1 is Ok,
    ensures
        ({
            let b1 = approve_adjustment_ledger_spec(b, rid, approver, role).0;
            &&& total(b1.accounts) == total(b.accounts) + b.adjustments[rid - 1].delta
            &&& approve_adjustment_ledger_spec(b1, rid, approver2, role2).1 is Err
            &&& approve_adjustment_ledger_spec(b1, rid, approver2, role2).0 == b1
        }),
{
    let q = b.adjustments[rid - 1];
    let a = b.accounts[q.account_id - 1];
    let nb = approve_adjustment_ledger_spec(b, rid, approver, role).1->Ok_0;
    lemma_total_update(b.accounts, q.account_id - 1, AccountRec { balance: nb, ..a });
}


// ── Per-transfer limits ─────────────────────────────────────────────

/// A change of account `acct`'s limit not yet applied whose hold window has
/// passed at `now`.
pub open spec fn matured(c: LimitChangeRec, acct: i64, now: int) -> bool {
    c.account_id == acct && !c.applied && c.effective_at <= now
}

/// The index of the matured change with the latest effective time (the
/// earliest row among equals), if any.
pub open spec fn latest_matured(cs: Seq<LimitChangeRec>, acct: i64, now: int) -> Option<int>
    decreases cs.len(),
{
    if cs.len() == 0 {
        None
    } else {
        let rest = latest_matured(cs.drop_last(), acct, now);
        let k = cs.len() - 1;
        if matured(cs[k], acct, now) && (rest matches Some(j) ==> cs[k].effective_at
            > cs[j].effective_at) {
            Some(k)
        } else {
            rest
        }
    }
}

/// Applies the limit changes of account `acct` that have matured by `now`:
/// the latest one sets the account's limit and all of them are marked
/// applied. Matured changes are applied lazily, whenever the account is
/// read or used for a transfer.
pub open spec fn promote_limits_spec(b: Books, acct: i64, now: int) -> Books {
    match latest_matured(b.limit_changes, acct, now) {
        None => b,
        Some(k) => {
            let marked = Seq::new(
                b.limit_changes.len(),
                |i: int|
                    if matured(b.limit_changes[i], acct, now) {
                        LimitChangeRec { applied: true, ..b.limit_changes[i] }
                    } else {
                        b.limit_changes[i]
                    },
            );
            let b1 = Books { limit_changes: marked, ..b };
            match account_at(b, acct as int) {
                Some(a) => with_account(
                    b1,
                    acct - 1,
                    AccountRec { transfer_limit: b.limit_changes[k].new_limit, ..a },
                ),
                None => b1,
            }
        },
    }
}

/// A limit-change request for account `acct` at `now`: a lower limit
/// applies at once, a higher one is recorded to take effect after the
/// account's hold window. The answer is when the new limit takes effect.
pub open spec fn request_limit_spec(b: Books, acct: int, new_limit: int, now: int) -> (Books, Result<i64, (ErrorKind, Seq<char>)>) {
    let current = match account_at(b, acct) {
        Some(a) => Some((a.transfer_limit, a.limit_hold_seconds)),
        None => None,
    };
    match limit_change_spec(acct, new_limit, current, now) {
        Err(e) => (b, Err(e)),
        Ok(LimitChange::ApplyNow) => (
            with_account(b, acct - 1, AccountRec { transfer_limit: new_limit as i64, ..b.accounts[acct - 1] }),
            Ok(now as i64),
        ),
        Ok(LimitChange::HoldUntil(t)) => (
            Books {
                limit_changes: b.limit_changes.push(
                    LimitChangeRec {
                        account_id: acct as i64,
                        old_limit: b.accounts[acct - 1].transfer_limit,
                        new_limit: new_limit as i64,
                        effective_at: t,
                        applied: false,
                    },
                ),
                ..b
            },
            Ok(t),
        ),
    }
}

/// A change of account `acct`'s limit still waiting out its hold at `now`.
pub open spec fn waiting(c: LimitChangeRec, acct: i64, now: int) -> bool {
    c.account_id == acct && !c.applied && c.effective_at > now
}

/// The waiting change with the latest effective time (earliest row among
/// equals), if any.
pub open spec fn latest_waiting(cs: Seq<LimitChangeRec>, acct: i64, now: int) -> Option<int>
    decreases cs.len(),
{
    if cs.len() == 0 {
        None
    } else {
        let rest = latest_waiting(cs.drop_last(), acct, now);
        let k = cs.len() - 1;
        if waiting(cs[k], acct, now) && (rest matches Some(j) ==> cs[k].effective_at
            > cs[j].effective_at) {
            Some(k)
        } else {
            rest
        }
    }
}

proof fn lemma_latest_matured_in_range(cs: Seq<LimitChangeRec>, acct: i64, now: int)
    ensures
        latest_matured(cs, acct, now) matches Some(k) ==> 0 <= k < cs.len() && matured(cs[k], acct, now),
        latest_matured(cs, acct, now) is None ==> forall|i: int| 0 <= i < cs.len() ==> !matured(#[trigger] cs[i], acct, now),
    decreases cs.len(),
{
    if cs.len() > 0 {
        lemma_latest_matured_in_range(cs.drop_last(), acct, now);
        if latest_matured(cs, acct, now) is None {
            assert forall|i: int| 0 <= i < cs.len() implies !matured(#[trigger] cs[i], acct, now) by {
                if i < cs.len() - 1 {
                    assert(cs[i] == cs.drop_last()[i]);
                }
            }
        }
    }
}

proof fn lemma_latest_waiting_in_range(cs: Seq<LimitChangeRec>, acct: i64, now: int)
    ensures
        latest_waiting(cs, acct, now) matches Some(k) ==> 0 <= k < cs.len() && waiting(cs[k], acct, now),
    decreases cs.len(),
{
    if cs.len() > 0 {
        lemma_latest_waiting_in_range(cs.drop_last(), acct, now);
    }
}

impl Ledger {
    /// Applies account `acct`'s matured limit changes at time `now`.
    pub fn promote_limits(&mut self, acct: i64, now: i64)
        requires
            books_ok(old(self)@),
        ensures
            books_ok(final(self)@),
            final(self)@ == promote_limits_spec(old(self)@, acct, now as int),
            total(final(self)@.accounts) == total(old(self)@.accounts),
    {
        let ghost b = self@;
        let n = self.limit_changes.len();
        let mut best: Option<usize> = None;
        let mut i: usize = 0;
        while i < n
            invariant
                b == self@,
                n == b.limit_changes.len(),
                i <= n,
                best == match latest_matured(b.limit_changes.subrange(0, i as int), acct, now as int) {
                    Some(k) => Some(k as usize),
                    None => None::<usize>,
                },
            decreases n - i,
        {
            proof {
                assert(b.limit_changes.subrange(0, i + 1).drop_last() =~= b.limit_changes.subrange(0, i as int));
                lemma_latest_matured_in_range(b.limit_changes.subrange(0, i as int), acct, now as int);
            }
            let c = self.limit_changes[i];
            if c.account_id == acct && !c.applied && c.effective_at <= now {
                match best {
                    None => {
                        best = Some(i);
                    },
                    Some(j) => {
                        if c.effective_at > self.limit_changes[j].effective_at {
                            best = Some(i);
                        }
                    },
                }
            }
            i = i + 1;
        }
        proof {
            assert(b.limit_changes.subrange(0, n as int) =~= b.limit_changes);
            lemma_latest_matured_in_range(b.limit_changes, acct, now as int);
        }
        match best {
            None => {},
            Some(k) => {
                let new_limit = self.limit_changes[k].new_limit;
                let mut j: usize = 0;
                while j < n
                    invariant
                        n == self.limit_changes@.len(),
                        n == b.limit_changes.len(),
                        j <= n,
                        self@.accounts == b.accounts,
                        self@.transfers == b.transfers,
                        self@.adjustments == b.adjustments,
                        self@.loans == b.loans,
                        self@.repayments == b.repayments,
                        forall|i: int|
                            0 <= i < n ==> #[trigger] self.limit_changes@[i] == if i < j && matured(
                                b.limit_changes[i],
                                acct,
                                now as int,
                            ) {
                                LimitChangeRec { applied: true, ..b.limit_changes[i] }
                            } else {
                                b.limit_changes[i]
                            },
                    decreases n - j,
                {
                    let c = self.limit_changes[j];
                    if c.account_id == acct && !c.applied && c.effective_at <= now {
                        self.limit_changes.set(j, LimitChangeRec { applied: true, ..c });
                    }
                    proof {
                        assert(self@.transfers =~= b.transfers);
                    }
                    j = j + 1;
                }
                proof {
                    let marked = Seq::new(
                        b.limit_changes.len(),
                        |i: int|
                            if matured(b.limit_changes[i], acct, now as int) {
                                LimitChangeRec { applied: true, ..b.limit_changes[i] }
                            } else {
                                b.limit_changes[i]
                            },
                    );
                    assert(self.limit_changes@ =~= marked);
                    assert(self@ =~= Books { limit_changes: marked, ..b });
                }
                let ghost b1 = self@;
                match self.account(acct) {
                    Some(a) => {
                        let na = self.accounts.len();
                        proof {
                            lemma_total_update(b1.accounts, acct - 1, AccountRec { transfer_limit: new_limit, ..a });
                            lemma_books_ok_account(b, acct - 1, AccountRec { transfer_limit: new_limit, ..a });
                        }
                        self.put_account((acct - 1) as usize, AccountRec { transfer_limit: new_limit, ..a });
                        proof {
                            assert(self@ =~= promote_limits_spec(b, acct, now as int));
                        }
                    },
                    None => {},
                }
            },
        }
    }

    /// Requests a new per-transfer limit for account `acct` at time `now`;
    /// returns when it takes effect.
    pub fn request_limit_change(&mut self, acct: i64, new_limit: i64, now: i64) -> (r: Result<i64, AppError>)
        requires
            books_ok(old(self)@),
            0 <= now <= i64::MAX / 2,
            old(self)@.limit_changes.len() + 1 < i64::MAX,
            money_ok(new_limit as int),
        ensures
            books_ok(final(self)@),
            final(self)@ == request_limit_spec(old(self)@, acct as int, new_limit as int, now as int).0,
            crate::accounts::amount_result_view(r) == request_limit_spec(old(self)@, acct as int, new_limit as int, now as int).1,
            total(final(self)@.accounts) == total(old(self)@.accounts),
    {
        let cur = self.account(acct);
        let current = match cur {
            Some(a) => Some((a.transfer_limit, a.limit_hold_seconds)),
            None => None,
        };
        match limit_change_decision(acct, new_limit, current, now) {
            Err(e) => Err(e),
            Ok(LimitChange::ApplyNow) => {
                let a = cur.unwrap();
                let na = self.accounts.len();
                proof {
                    lemma_total_update(self@.accounts, acct - 1, AccountRec { transfer_limit: new_limit, ..a });
                    lemma_books_ok_account(self@, acct - 1, AccountRec { transfer_limit: new_limit, ..a });
                }
                self.put_account((acct - 1) as usize, AccountRec { transfer_limit: new_limit, ..a });
                Ok(now)
            },
            Ok(LimitChange::HoldUntil(t)) => {
                let a = cur.unwrap();
                self.limit_changes.push(
                    LimitChangeRec {
                        account_id: acct,
                        old_limit: a.transfer_limit,
                        new_limit,
                        effective_at: t,
                        applied: false,
                    },
                );
                proof {
                    assert(self@ =~= request_limit_spec(old(self)@, acct as int, new_limit as int, now as int).0);
                }
                Ok(t)
            },
        }
    }

    /// The limit change of account `acct` still waiting out its hold at
    /// `now`, as its new limit and effective time.
    pub fn pending_limit(&self, acct: i64, now: i64) -> (r: Option<(i64, i64)>)
        ensures
            r == match latest_waiting(self@.limit_changes, acct, now as int) {
                Some(k) => Some((self@.limit_changes[k].new_limit, self@.limit_changes[k].effective_at)),
                None => None,
            },
    {
        let ghost cs = self@.limit_changes;
        let n = self.limit_changes.len();
        let mut best: Option<usize> = None;
        let mut i: usize = 0;
        while i < n
            invariant
                cs == self@.limit_changes,
                n == cs.len(),
                i <= n,
                best == match latest_waiting(cs.subrange(0, i as int), acct, now as int) {
                    Some(k) => Some(k as usize),
                    None => None::<usize>,
                },
            decreases n - i,
        {
            proof {
                assert(cs.subrange(0, i + 1).drop_last() =~= cs.subrange(0, i as int));
                lemma_latest_waiting_in_range(cs.subrange(0, i as int), acct, now as int);
            }
            let c = self.limit_changes[i];
            if c.account_id == acct && !c.applied && c.effective_at > now {
                match best {
                    None => {
                        best = Some(i);
                    },
                    Some(j) => {
                        if c.effective_at > self.limit_changes[j].effective_at {
                            best = Some(i);
                        }
                    },
                }
            }
            i = i + 1;
        }
        proof {
            assert(cs.subrange(0, n as int) =~= cs);
            lemma_latest_waiting_in_range(cs, acct, now as int);
        }
        match best {
            Some(k) => Some((self.limit_changes[k].new_limit, self.limit_changes[k].effective_at)),
            None => None,
        }
    }
}

/// After matured changes are applied, none is left to apply: applying
/// them again at the same moment changes nothing.
pub proof fn law_limit_promotion_is_idempotent(b: Books, acct: i64, now: int)
    requires
        books_ok(b),
    ensures
        promote_limits_spec(promote_limits_spec(b, acct, now), acct, now) == promote_limits_spec(b, acct, now),
{
    let b1 = promote_limits_spec(b, acct, now);
    lemma_latest_matured_in_range(b.limit_changes, acct, now);
    if latest_matured(b.limit_changes, acct, now) is Some {
        assert forall|i: int| 0 <= i < b1.limit_changes.len() implies !matured(#[trigger] b1.limit_changes[i], acct, now) by {}
    }
    lemma_latest_matured_none(b1.limit_changes, acct, now);
}

proof fn lemma_latest_matured_none(cs: Seq<LimitChangeRec>, acct: i64, now: int)
    requires
        forall|i: int| 0 <= i < cs.len() ==> !matured(#[trigger] cs[i], acct, now),
    ensures
        latest_matured(cs, acct, now) is None,
    decreases cs.len(),
{
    if cs.len() > 0 {
        assert forall|i: int| 0 <= i < cs.drop_last().len() implies !matured(#[trigger] cs.drop_last()[i], acct, now) by {
            assert(cs.drop_last()[i] == cs[i]);
        }
        lemma_latest_matured_none(cs.drop_last(), acct, now);
        assert(!matured(cs[cs.len() - 1], acct, now));
    }
}

/// A promoted limit is one that was requested and whose hold window has
/// passed: the account's limit after promotion at `now` is its old limit or
/// the new limit of a change effective at or before `now`.
pub proof fn law_promoted_limit_has_matured(b: Books, acct: i64, now: int)
    requires
        books_ok(b),
        account_at(b, acct as int) is Some,
    ensures
        ({
            let b1 = promote_limits_spec(b, acct, now);
            let l1 = b1.accounts[acct - 1].transfer_limit;
            l1 == b.accounts[acct - 1].transfer_limit || exists|k: int|
                0 <= k < b.limit_changes.len() && #[trigger] b.limit_changes[k].new_limit == l1
                    && b.limit_changes[k].account_id == acct && b.limit_changes[k].effective_at <= now
        }),
{
    lemma_latest_matured_in_range(b.limit_changes, acct, now);
}

// ── Creating transfers ──────────────────────────────────────────────

/// The owners of both accounts, when both exist.
pub open spec fn owners_of(b: Books, from: int, to: int) -> Option<(i64, i64)> {
    match (account_at(b, from), account_at(b, to)) {
        (Some(f), Some(t)) => Some((f.owner, t.owner)),
        _ => None,
    }
}

/// A new transfer row.
pub open spec fn new_transfer(id: nat, from: i64, to: i64, amount: i64, status: TransferStatus, note: Option<Seq<char>>, reason: Option<Seq<char>>, otp_hash: Option<Seq<char>>, now: i64) -> TransferView {
    TransferView {
        id: id as i64,
        from_account_id: from,
        to_account_id: to,
        amount,
        status,
        note,
        reason,
        otp_hash,
        otp_attempts: 0,
        created_at: now,
        review: ReviewState::NotFiled,
        claim: None,
    }
}

/// What the checks before a transfer announce, `actor` sending: an
/// attempt to send more than the balance is recorded as the event
/// `transfer.rejected`, and may freeze the account.
pub open spec fn prepare_effects(b: Books, from: i64, to: i64, amount: i64, note: Option<Seq<char>>, now: int, actor: i64) -> EffectsView {
    match request_check_spec(amount as int, from as int, to as int) {
        Some(_) => no_effects(),
        None => match parties_check_spec(owners_of(b, from as int, to as int)) {
            Some(_) => no_effects(),
            None => {
                let b0 = promote_limits_spec(b, from, now);
                let f = b0.accounts[from - 1];
                let reserved = capped(sum_by(b0.transfers, reserved_term(from)));
                match funds_check_spec(amount as int, f.balance as int, reserved, f.transfer_limit as int) {
                    FundsCheckView::Overdraft(reason, e) => {
                        let b1 = Books {
                            transfers: b0.transfers.push(
                                new_transfer(
                                    b0.transfers.len() + 1,
                                    from,
                                    to,
                                    amount,
                                    TransferStatus::Rejected,
                                    note,
                                    Some(reason),
                                    None,
                                    now as i64,
                                ),
                            ),
                            ..b0
                        };
                        then(
                            one_event(
                                event_view(
                                    Some(actor),
                                    "transfer.rejected"@,
                                    seq![
                                        txt("reason"@, "insufficient funds (pre-check)"@),
                                        txt("amount"@, money_seq(amount as int)),
                                    ],
                                ),
                            ),
                            freeze_effects(b1, from, now, actor),
                        )
                    },
                    _ => no_effects(),
                }
            },
        },
    }
}

/// The checks before a transfer is created, with their writes: matured
/// limit changes of the source are applied; an attempt to send more than
/// the balance is recorded as a rejected transfer and may freeze the
/// account. `Ok` lets the caller go on to rate limiting and the code.
pub open spec fn prepare_spec(b: Books, from: i64, to: i64, amount: i64, note: Option<Seq<char>>, now: int) -> (Books, Result<(), (ErrorKind, Seq<char>)>) {
    match request_check_spec(amount as int, from as int, to as int) {
        Some(e) => (b, Err(e)),
        None => match parties_check_spec(owners_of(b, from as int, to as int)) {
            Some(e) => (b, Err(e)),
            None => {
                let b0 = promote_limits_spec(b, from, now);
                let f = b0.accounts[from - 1];
                let reserved = capped(sum_by(b0.transfers, reserved_term(from)));
                match funds_check_spec(amount as int, f.balance as int, reserved, f.transfer_limit as int) {
                    FundsCheckView::Overdraft(reason, e) => {
                        let b1 = Books {
                            transfers: b0.transfers.push(
                                new_transfer(
                                    b0.transfers.len() + 1,
                                    from,
                                    to,
                                    amount,
                                    TransferStatus::Rejected,
                                    note,
                                    Some(reason),
                                    None,
                                    now as i64,
                                ),
                            ),
                            ..b0
                        };
                        (freeze_check_spec(b1, from, now), Err(e))
                    },
                    FundsCheckView::Refuse(e) => (b0, Err(e)),
                    FundsCheckView::Proceed => (b0, Ok(())),
                }
            },
        },
    }
}

/// The view of a unit result.
pub open spec fn unit_answer(r: Result<(), AppError>) -> Result<(), (ErrorKind, Seq<char>)> {
    match r {
        Ok(x) => Ok(x),
        Err(e) => Err(e@),
    }
}

proof fn lemma_promote_keeps_accounts(b: Books, acct: i64, now: int)
    requires
        books_ok(b),
    ensures
        books_ok(promote_limits_spec(b, acct, now)),
        promote_limits_spec(b, acct, now).accounts.len() == b.accounts.len(),
        promote_limits_spec(b, acct, now).transfers == b.transfers,
        total(promote_limits_spec(b, acct, now).accounts) == total(b.accounts),
        forall|i: int|
            0 <= i < b.accounts.len() ==> {
                let x = #[trigger] promote_limits_spec(b, acct, now).accounts[i];
                &&& x.balance == b.accounts[i].balance
                &&& x.owner == b.accounts[i].owner
                &&& x.status == b.accounts[i].status
            },
{
    lemma_latest_matured_in_range(b.limit_changes, acct, now);
    if let Some(k) = latest_matured(b.limit_changes, acct, now) {
        let marked = Seq::new(
            b.limit_changes.len(),
            |i: int|
                if matured(b.limit_changes[i], acct, now) {
                    LimitChangeRec { applied: true, ..b.limit_changes[i] }
                } else {
                    b.limit_changes[i]
                },
        );
        let b1 = Books { limit_changes: marked, ..b };
        assert(books_ok(b1));
        if let Some(a) = account_at(b, acct as int) {
            let na = AccountRec { transfer_limit: b.limit_changes[k].new_limit, ..a };
            lemma_books_ok_account(b1, acct - 1, na);
            lemma_total_update(b1.accounts, acct - 1, na);
        }
    }
}

impl Ledger {
    /// The checks before creating a transfer of `amount` from account
    /// `from` to account `to` at time `now` (see [`prepare_spec`]).
    /// `actor` is who sends; what the checks announce is added to `fx`.
    pub fn prepare_transfer(&mut self, from: i64, to: i64, amount: i64, note: Option<String>, now: i64, actor: i64, fx: &mut Effects) -> (r: Result<(), AppError>)
        requires
            books_ok(old(self)@),
            now >= 0,
            money_ok(amount as int),
            old(self)@.transfers.len() + 1 < i64::MAX,
        ensures
            books_ok(final(self)@),
            final(self)@ == prepare_spec(old(self)@, from, to, amount, opt_text(note), now as int).0,
            unit_answer(r) == prepare_spec(old(self)@, from, to, amount, opt_text(note), now as int).1,
            total(final(self)@.accounts) == total(old(self)@.accounts),
            r is Ok ==> final(self)@.transfers == old(self)@.transfers && 0 < amount && from != to,
            final(fx)@ == then(old(fx)@, prepare_effects(old(self)@, from, to, amount, opt_text(note), now as int, actor)),
    {
        let ghost b = self@;
        let ghost f0 = fx@;
        let ghost nv = opt_text(note);
        proof {
            lemma_then_none(f0);
        }
        check_request(amount, from, to)?;
        let owners = match (self.account(from), self.account(to)) {
            (Some(f), Some(t)) => Some((f.owner, t.owner)),
            _ => None,
        };
        check_parties(owners)?;
        proof {
            lemma_promote_keeps_accounts(b, from, now as int);
        }
        self.promote_limits(from, now);
        let f = self.account(from).unwrap();
        let reserved = self.sum_amounts(1, from, 0, 0);
        match check_funds(amount, f.balance, reserved, f.transfer_limit) {
            FundsCheck::Overdraft { reason, error } => {
                let id = self.transfers.len() as i64 + 1;
                let ghost b0 = self@;
                self.transfers.push(
                    TransferRec {
                        id,
                        from_account_id: from,
                        to_account_id: to,
                        amount,
                        status: TransferStatus::Rejected,
                        note,
                        reason: Some(reason),
                        otp_hash: None,
                        otp_attempts: 0,
                        created_at: now,
                        review: ReviewState::NotFiled,
                        claim: None,
                    },
                );
                proof {
                    assert(self@.transfers =~= b0.transfers.push(self.transfers@[self.transfers@.len() - 1]@));
                    assert(self@ =~= Books { transfers: self@.transfers, ..b0 });
                    assert(books_ok(self@)) by {
                        assert forall|j: int| 0 <= j < self@.transfers.len() implies {
                            let t = #[trigger] self@.transfers[j];
                            &&& t.id == j + 1
                            &&& 0 < t.amount <= MAX_CENTS
                            &&& t.from_account_id != t.to_account_id
                            &&& t.otp_attempts >= 0
                        } by {
                            if j < b0.transfers.len() {
                                assert(self@.transfers[j] == b0.transfers[j]);
                            }
                        }
                    }
                    lemma_freeze_check_sound(self@, from, now as int);
                }
                fx.emit(
                    event2(
                        Some(actor),
                        "transfer.rejected",
                        text_field("reason", "insufficient funds (pre-check)".to_owned()),
                        text_field("amount", money_text(amount)),
                    ),
                );
                self.freeze_check(from, now, actor, fx);
                proof {
                    assert(fx@.0 =~= f0.0 + prepare_effects(b, from, to, amount, nv, now as int, actor).0);
                    assert(fx@.1 =~= f0.1 + prepare_effects(b, from, to, amount, nv, now as int, actor).1);
                }
                Err(error)
            },
            FundsCheck::Refuse(e) => Err(e),
            FundsCheck::Proceed => Ok(()),
        }
    }

    /// Records a pending transfer holding the hash of its one-time code,
    /// once [`Ledger::prepare_transfer`] allowed it; returns its id.
    pub fn insert_pending(&mut self, from: i64, to: i64, amount: i64, note: Option<String>, otp_hash: String, now: i64) -> (id: i64)
        requires
            books_ok(old(self)@),
            0 < amount <= MAX_CENTS,
            from != to,
            old(self)@.transfers.len() + 1 < i64::MAX,
        ensures
            books_ok(final(self)@),
            final(self)@ == (Books {
                transfers: old(self)@.transfers.push(
                    new_transfer(
                        old(self)@.transfers.len() + 1,
                        from,
                        to,
                        amount,
                        TransferStatus::Pending,
                        opt_text(note),
                        None,
                        Some(otp_hash@),
                        now,
                    ),
                ),
                ..old(self)@
            }),
            id == final(self)@.transfers.len(),
    {
        let id = self.transfers.len() as i64 + 1;
        let ghost b0 = self@;
        self.transfers.push(
            TransferRec {
                id,
                from_account_id: from,
                to_account_id: to,
                amount,
                status: TransferStatus::Pending,
                note,
                reason: None,
                otp_hash: Some(otp_hash),
                otp_attempts: 0,
                created_at: now,
                review: ReviewState::NotFiled,
                claim: None,
            },
        );
        proof {
            assert(self@.transfers =~= b0.transfers.push(self.transfers@[self.transfers@.len() - 1]@));
            assert forall|j: int| 0 <= j < self@.transfers.len() implies {
                let t = #[trigger] self@.transfers[j];
                &&& t.id == j + 1
                &&& 0 < t.amount <= MAX_CENTS
                &&& t.from_account_id != t.to_account_id
                &&& t.otp_attempts >= 0
            } by {
                if j < b0.transfers.len() {
                    assert(self@.transfers[j] == b0.transfers[j]);
                }
            }
        }
        id
    }
}

/// The per-transfer limit: a transfer between accounts of two different
/// owners that the source's balance covers, also beside what its pending
/// and held transfers reserve, but whose amount exceeds the source's limit
/// (after matured limit changes take effect) is refused as a bad request
/// naming the limit, and records no transfer.
pub proof fn law_transfer_over_the_limit_is_refused(b: Books, from: i64, to: i64, amount: i64, note: Option<Seq<char>>, now: int)
    requires
        books_ok(b),
        0 < amount,
        from != to,
        account_at(b, from as int) matches Some(f) && account_at(b, to as int) matches Some(d) && f.owner != d.owner,
        ({
            let b0 = promote_limits_spec(b, from, now);
            let f = b0.accounts[from - 1];
            &&& amount <= f.balance
            &&& amount <= f.balance - capped(sum_by(b0.transfers, reserved_term(from)))
            &&& amount > f.transfer_limit
        }),
    ensures
        ({
            let (b1, r) = prepare_spec(b, from, to, amount, note, now);
            let limit = promote_limits_spec(b, from, now).accounts[from - 1].transfer_limit;
            &&& r == Err::<(), (ErrorKind, Seq<char>)>(
                (ErrorKind::BadRequest, "amount exceeds this account's per-transfer limit of "@ + dollars_seq(
                    limit as int,
                ) + " - request a limit increase from the account page"@),
            )
            &&& b1.transfers == b.transfers
        }),
{
    lemma_promote_keeps_accounts(b, from, now);
}

/// A transfer between accounts of two different owners whose amount the
/// source's balance covers, also beside what its pending and held
/// transfers reserve, and which is within its limit (after matured limit
/// changes take effect), passes the checks: nothing is refused and no
/// transfer is recorded yet.
pub proof fn law_transfer_within_funds_and_limit_passes(b: Books, from: i64, to: i64, amount: i64, note: Option<Seq<char>>, now: int)
    requires
        books_ok(b),
        0 < amount,
        from != to,
        account_at(b, from as int) matches Some(f) && account_at(b, to as int) matches Some(d) && f.owner != d.owner,
        ({
            let b0 = promote_limits_spec(b, from, now);
            let f = b0.accounts[from - 1];
            &&& amount <= f.balance
            &&& amount <= f.balance - capped(sum_by(b0.transfers, reserved_term(from)))
            &&& amount <= f.transfer_limit
        }),
    ensures
        prepare_spec(b, from, to, amount, note, now).1 is Ok,
        prepare_spec(b, from, to, amount, note, now).0.transfers == b.transfers,
{
    lemma_promote_keeps_accounts(b, from, now);
}

/// An attempt to send more than the balance is refused as a bad request
/// before anything else is weighed, and is recorded as a rejected transfer
/// whose reason starts "insufficient funds".
pub proof fn law_overdraft_attempt_is_refused_and_recorded(b: Books, from: i64, to: i64, amount: i64, note: Option<Seq<char>>, now: int)
    requires
        books_ok(b),
        0 < amount,
        from != to,
        account_at(b, from as int) matches Some(f) && account_at(b, to as int) matches Some(d) && f.owner != d.owner
            && amount > f.balance,
    ensures
        ({
            let (b1, r) = prepare_spec(b, from, to, amount, note, now);
            &&& r matches Err(e) && e.0 == ErrorKind::BadRequest
            &&& b1.transfers.len() == b.transfers.len() + 1
            &&& b1.transfers.last().status == TransferStatus::Rejected
            &&& b1.transfers.last().amount == amount
            &&& b1.transfers.last().reason matches Some(why) && starts_with_seq(why, "insufficient funds"@)
        }),
{
    lemma_promote_keeps_accounts(b, from, now);
    let b0 = promote_limits_spec(b, from, now);
    let f = b0.accounts[from - 1];
    crate::transfer::law_insufficient_funds_counts_as_overdraft(f.balance as int, amount as int);
}

/// Preparing a transfer moves no money: every account keeps its balance,
/// so the total is unchanged.
pub proof fn law_prepare_moves_no_money(b: Books, from: i64, to: i64, amount: i64, note: Option<Seq<char>>, now: int)
    requires
        books_ok(b),
        b.transfers.len() + 1 < i64::MAX,
        money_ok(amount as int),
        0 <= now <= i64::MAX,
    ensures
        total(prepare_spec(b, from, to, amount, note, now).0.accounts) == total(b.accounts),
        same_balances(prepare_spec(b, from, to, amount, note, now).0.accounts, b.accounts),
        prepare_spec(b, from, to, amount, note, now).1 is Ok ==> prepare_spec(b, from, to, amount, note, now).0.transfers
            == b.transfers,
{
    if request_check_spec(amount as int, from as int, to as int) is None && parties_check_spec(owners_of(b, from as int, to as int)) is None {
        lemma_promote_keeps_accounts(b, from, now);
        let b0 = promote_limits_spec(b, from, now);
        let f = b0.accounts[from - 1];
        let reserved = capped(sum_by(b0.transfers, reserved_term(from)));
        if let FundsCheckView::Overdraft(reason, e) = funds_check_spec(amount as int, f.balance as int, reserved, f.transfer_limit as int) {
            let b1 = Books {
                transfers: b0.transfers.push(
                    new_transfer(b0.transfers.len() + 1, from, to, amount, TransferStatus::Rejected, note, Some(reason), None, now as i64),
                ),
                ..b0
            };
            assert forall|j: int| 0 <= j < b1.transfers.len() implies {
                let t = #[trigger] b1.transfers[j];
                &&& t.id == j + 1
                &&& 0 < t.amount <= MAX_CENTS
                &&& t.from_account_id != t.to_account_id
                &&& t.otp_attempts >= 0
            } by {
                if j < b0.transfers.len() {
                    assert(b1.transfers[j] == b0.transfers[j]);
                }
            }
            lemma_freeze_check_sound(b1, from, now);
        }
    }
}


// ── Staff review of held transfers ──────────────────────────────────

/// A staff release of held transfer `id`.
pub open spec fn release_ledger_spec(b: Books, id: int, decider: i64) -> (Books, Result<(), (ErrorKind, Seq<char>)>) {
    if !(1 <= id <= b.transfers.len()) {
        (b, Err((ErrorKind::NotFound, "transfer "@ + int_text(id) + " not found"@)))
    } else {
        let idx = id - 1;
        let t = b.transfers[idx];
        match release_spec(
            pending_of(t),
            t.review == ReviewState::Filed,
            locked(account_at(b, t.from_account_id as int)),
            locked(account_at(b, t.to_account_id as int)),
        ) {
            ReleaseStepView::Refuse(e) => (b, Err(e)),
            ReleaseStepView::Fail(e) => (
                with_transfer(
                    b,
                    idx,
                    TransferView {
                        status: TransferStatus::Rejected,
                        reason: Some(release_failed_reason_spec()),
                        review: ReviewState::Denied(decider),
                        ..t
                    },
                ),
                Err(e),
            ),
            ReleaseStepView::Complete(nf, nt) => {
                let f = b.accounts[t.from_account_id - 1];
                let d = b.accounts[t.to_account_id - 1];
                let b1 = with_account(b, t.from_account_id - 1, AccountRec { balance: nf, ..f });
                let b2 = with_account(b1, t.to_account_id - 1, AccountRec { balance: nt, ..d });
                (
                    with_transfer(
                        b2,
                        idx,
                        TransferView {
                            status: TransferStatus::Completed,
                            otp_hash: None,
                            review: ReviewState::Released(decider),
                            ..t
                        },
                    ),
                    Ok(()),
                )
            },
        }
    }
}

/// A staff denial of held transfer `id` with `reason`.
pub open spec fn deny_ledger_spec(b: Books, id: int, decider: i64, reason: Seq<char>) -> (Books, Result<(), (ErrorKind, Seq<char>)>) {
    if !(1 <= id <= b.transfers.len()) {
        (b, Err((ErrorKind::Conflict, "transfer is not on hold"@)))
    } else {
        let t = b.transfers[id - 1];
        match deny_spec(t.status) {
            Some(e) => (b, Err(e)),
            None => (
                with_transfer(
                    b,
                    id - 1,
                    TransferView {
                        status: TransferStatus::Rejected,
                        reason: Some(reason),
                        review: if t.review == ReviewState::Filed {
                            ReviewState::Denied(decider)
                        } else {
                            t.review
                        },
                        ..t
                    },
                ),
                Ok(()),
            ),
        }
    }
}

/// What a release announces when it succeeds: the event
/// `transfer.released` by the decider, and notices to both parties.
pub open spec fn release_effects(b: Books, id: int, decider: i64) -> EffectsView {
    if release_ledger_spec(b, id, decider).1 is Ok {
        let t = b.transfers[id - 1];
        let sender = owner_or_none(b, t.from_account_id);
        let recipient = owner_or_none(b, t.to_account_id);
        (
            seq![event_view(Some(decider), "transfer.released"@, seq![num("transfer_id"@, t.id)])],
            seq![
                NoticeView::Released { user: sender, amount: t.amount, recipient },
                NoticeView::Received { user: recipient, amount: t.amount, sender },
            ],
        )
    } else {
        no_effects()
    }
}

/// What a denial announces when it succeeds: the event `transfer.denied`
/// by the decider, and a notice to the sender.
pub open spec fn deny_effects(b: Books, id: int, decider: i64, reason: Seq<char>) -> EffectsView {
    if deny_ledger_spec(b, id, decider, reason).1 is Ok {
        let t = b.transfers[id - 1];
        (
            seq![
                event_view(
                    Some(decider),
                    "transfer.denied"@,
                    seq![num("transfer_id"@, t.id), txt("reason"@, reason)],
                ),
            ],
            seq![NoticeView::Denied { user: owner_or_none(b, t.from_account_id), amount: t.amount, reason }],
        )
    } else {
        no_effects()
    }
}

/// Whether `actor` owns the source account of transfer `id`.
pub open spec fn owns_transfer(b: Books, actor: int, id: int) -> bool {
    &&& 1 <= id <= b.transfers.len()
    &&& account_at(b, b.transfers[id - 1].from_account_id as int) matches Some(a)
    &&& a.owner == actor
}

/// A customer's review request for held transfer `id`: purpose and
/// identity number must be given, only the owner of the source account may
/// file, and only while the transfer is held. A new request replaces an
/// earlier one.
pub open spec fn submit_review_spec(b: Books, actor: int, id: int, purpose: Seq<char>, nric: Seq<char>) -> (Books, Result<(), (ErrorKind, Seq<char>)>) {
    if crate::text::trimmed(purpose).len() == 0 || crate::text::trimmed(nric).len() == 0 {
        (b, Err((ErrorKind::BadRequest, "both the purpose and your NRIC are required"@)))
    } else if !owns_transfer(b, actor, id) {
        (b, Err((ErrorKind::NotFound, "transfer "@ + int_text(id) + " not found"@)))
    } else {
        let t = b.transfers[id - 1];
        match review_check_spec(purpose, nric, t.status) {
            Some(e) => (b, Err(e)),
            None => (
                with_transfer(
                    b,
                    id - 1,
                    TransferView {
                        review: ReviewState::Filed,
                        claim: Some((crate::text::trimmed(purpose), crate::text::trimmed(nric))),
                        ..t
                    },
                ),
                Ok(()),
            ),
        }
    }
}

impl Ledger {
    fn not_found_transfer(id: i64) -> (e: AppError)
        ensures
            e@ == (ErrorKind::NotFound, "transfer "@ + int_text(id as int) + " not found"@),
    {
        let mut m = "transfer ".to_owned();
        m.append(i64_text(id).as_str());
        m.append(" not found");
        AppError::NotFound(m)
    }

    fn locked_transfer(&self, idx: usize) -> (p: PendingTransfer)
        requires
            idx < self@.transfers.len(),
        ensures
            p == pending_of(self@.transfers[idx as int]),
    {
        let t = &self.transfers[idx];
        PendingTransfer {
            id: t.id,
            from_account_id: t.from_account_id,
            to_account_id: t.to_account_id,
            amount: t.amount,
            status: t.status,
            otp_attempts: t.otp_attempts,
            created_at: t.created_at,
        }
    }

    /// Staff release of held transfer `id`.
    /// `decider` is the staff member deciding; what the release announces
    /// is added to `fx`.
    pub fn release(&mut self, id: i64, decider: i64, fx: &mut Effects) -> (r: Result<(), AppError>)
        requires
            books_ok(old(self)@),
        ensures
            books_ok(final(self)@),
            final(self)@ == release_ledger_spec(old(self)@, id as int, decider).0,
            unit_answer(r) == release_ledger_spec(old(self)@, id as int, decider).1,
            final(fx)@ == then(old(fx)@, release_effects(old(self)@, id as int, decider)),
    {
        let ghost b = self@;
        let ghost f0 = fx@;
        proof {
            lemma_release_effect(b, id as int, decider);
            lemma_then_none(f0);
        }
        if !(1 <= id && (id as u64) <= (self.transfers.len() as u64)) {
            return Err(Self::not_found_transfer(id));
        }
        let idx = (id - 1) as usize;
        let pt = self.locked_transfer(idx);
        let filed = self.transfers[idx].review == ReviewState::Filed;
        let from = lock_of(self.account(pt.from_account_id));
        let to = lock_of(self.account(pt.to_account_id));
        match release_decision(&pt, filed, from, to) {
            ReleaseStep::Refuse(e) => Err(e),
            ReleaseStep::Fail(e) => {
                let old_t = self.transfers[idx].duplicate();
                self.put_transfer(
                    idx,
                    TransferRec {
                        status: TransferStatus::Rejected,
                        reason: Some(release_failed_reason()),
                        review: ReviewState::Denied(decider),
                        ..old_t
                    },
                );
                Err(e)
            },
            ReleaseStep::Complete { from_balance, to_balance } => {
                let old_t = self.transfers[idx].duplicate();
                let n = self.accounts.len();
                let fi = (pt.from_account_id - 1) as usize;
                let ti = (pt.to_account_id - 1) as usize;
                let f = self.accounts[fi];
                let d = self.accounts[ti];
                fx.emit(event1(Some(decider), "transfer.released", num_field("transfer_id", old_t.id)));
                fx.tell(Notice::Released { user: f.owner, amount: old_t.amount, recipient: d.owner });
                fx.tell(Notice::Received { user: d.owner, amount: old_t.amount, sender: f.owner });
                proof {
                    assert(account_at(b, pt.from_account_id as int) == Some(f));
                    assert(account_at(b, pt.to_account_id as int) == Some(d));
                    assert(fx@.0 =~= f0.0 + release_effects(b, id as int, decider).0);
                    assert(fx@.1 =~= f0.1 + release_effects(b, id as int, decider).1);
                }
                self.put_account(fi, AccountRec { balance: from_balance, ..f });
                self.put_account(ti, AccountRec { balance: to_balance, ..d });
                self.put_transfer(
                    idx,
                    TransferRec {
                        status: TransferStatus::Completed,
                        otp_hash: None,
                        review: ReviewState::Released(decider),
                        ..old_t
                    },
                );
                Ok(())
            },
        }
    }

    /// Staff denial of held transfer `id`, recording `reason`.
    /// `decider` is the staff member deciding; what the denial announces
    /// is added to `fx`.
    pub fn deny(&mut self, id: i64, decider: i64, reason: &str, fx: &mut Effects) -> (r: Result<(), AppError>)
        requires
            books_ok(old(self)@),
        ensures
            books_ok(final(self)@),
            final(self)@ == deny_ledger_spec(old(self)@, id as int, decider, reason@).0,
            unit_answer(r) == deny_ledger_spec(old(self)@, id as int, decider, reason@).1,
            total(final(self)@.accounts) == total(old(self)@.accounts),
            final(fx)@ == then(old(fx)@, deny_effects(old(self)@, id as int, decider, reason@)),
    {
        let ghost b = self@;
        let ghost f0 = fx@;
        proof {
            lemma_then_none(f0);
        }
        if !(1 <= id && (id as u64) <= (self.transfers.len() as u64)) {
            return Err(AppError::Conflict("transfer is not on hold".to_owned()));
        }
        let idx = (id - 1) as usize;
        deny_decision(self.transfers[idx].status)?;
        let old_t = self.transfers[idx].duplicate();
        let review = if old_t.review == ReviewState::Filed {
            ReviewState::Denied(decider)
        } else {
            old_t.review
        };
        proof {
            lemma_books_ok_transfer_fields(
                self@,
                idx as int,
                TransferView { status: TransferStatus::Rejected, reason: Some(reason@), review, ..old_t@ },
            );
        }
        self.put_transfer(
            idx,
            TransferRec {
                status: TransferStatus::Rejected,
                reason: Some(reason.to_owned()),
                review,
                ..old_t
            },
        );
        let owner: i64 = match self.account(old_t.from_account_id) {
            Some(a) => a.owner,
            None => 0,
        };
        fx.emit(
            event2(
                Some(decider),
                "transfer.denied",
                num_field("transfer_id", old_t.id),
                text_field("reason", reason.to_owned()),
            ),
        );
        fx.tell(Notice::Denied { user: owner, amount: old_t.amount, reason: reason.to_owned() });
        proof {
            assert(self@.accounts == b.accounts);
            assert(fx@.0 =~= f0.0 + deny_effects(b, id as int, decider, reason@).0);
            assert(fx@.1 =~= f0.1 + deny_effects(b, id as int, decider, reason@).1);
        }
        Ok(())
    }

    /// A customer files (or updates) the review request of held transfer `id`.
    /// A filed request is announced to the audit log through `fx`.
    pub fn submit_review(&mut self, actor: i64, id: i64, purpose: &str, nric: &str, fx: &mut Effects) -> (r: Result<(), AppError>)
        requires
            books_ok(old(self)@),
        ensures
            books_ok(final(self)@),
            final(self)@ == submit_review_spec(old(self)@, actor as int, id as int, purpose@, nric@).0,
            unit_answer(r) == submit_review_spec(old(self)@, actor as int, id as int, purpose@, nric@).1,
            total(final(self)@.accounts) == total(old(self)@.accounts),
            final(fx)@ == then(
                old(fx)@,
                if r is Ok {
                    one_event(event_view(Some(actor), "transfer.review_submitted"@, seq![num("transfer_id"@, id)]))
                } else {
                    no_effects()
                },
            ),
    {
        proof {
            lemma_then_none(old(fx)@);
        }
        let p = crate::text::trim(purpose);
        let n = crate::text::trim(nric);
        if p.unicode_len() == 0 || n.unicode_len() == 0 {
            return Err(AppError::BadRequest("both the purpose and your NRIC are required".to_owned()));
        }
        let owned = 1 <= id && (id as u64) <= (self.transfers.len() as u64) && match self.account(
            self.transfers[(id - 1) as usize].from_account_id,
        ) {
            Some(a) => a.owner == actor,
            None => false,
        };
        if !owned {
            return Err(Self::not_found_transfer(id));
        }
        let idx = (id - 1) as usize;
        check_review(purpose, nric, self.transfers[idx].status)?;
        let old_t = self.transfers[idx].duplicate();
        proof {
            lemma_books_ok_transfer_fields(
                self@,
                idx as int,
                TransferView { review: ReviewState::Filed, claim: Some((p@, n@)), ..old_t@ },
            );
        }
        self.put_transfer(
            idx,
            TransferRec {
                review: ReviewState::Filed,
                claim: Some((p.to_owned(), n.to_owned())),
                ..old_t
            },
        );
        fx.emit(event1(Some(actor), "transfer.review_submitted", num_field("transfer_id", id)));
        Ok(())
    }
}

/// What a release does to the books.
proof fn lemma_release_effect(b: Books, id: int, decider: i64)
    requires
        books_ok(b),
    ensures
        ({
            let (b1, r) = release_ledger_spec(b, id, decider);
            &&& books_ok(b1)
            &&& total(b1.accounts) == total(b.accounts)
            &&& (r is Ok ==> {
                let t = b.transfers[id - 1];
                &&& 1 <= id <= b.transfers.len()
                &&& t.status == TransferStatus::OnHold
                &&& t.review == ReviewState::Filed
                &&& b.accounts[t.from_account_id - 1].status == AccountStatus::Active
                &&& b.accounts[t.to_account_id - 1].status == AccountStatus::Active
                &&& b.accounts[t.from_account_id - 1].balance >= t.amount
                &&& b1.accounts[t.from_account_id - 1].balance == b.accounts[t.from_account_id - 1].balance - t.amount
                &&& b1.accounts[t.to_account_id - 1].balance == b.accounts[t.to_account_id - 1].balance + t.amount
                &&& b1.transfers[id - 1].status == TransferStatus::Completed
            })
        }),
{
    if 1 <= id <= b.transfers.len() {
        let idx = id - 1;
        let t = b.transfers[idx];
        match release_spec(
            pending_of(t),
            t.review == ReviewState::Filed,
            locked(account_at(b, t.from_account_id as int)),
            locked(account_at(b, t.to_account_id as int)),
        ) {
            ReleaseStepView::Refuse(e) => {},
            ReleaseStepView::Fail(e) => {
                lemma_books_ok_transfer_fields(
                    b,
                    idx,
                    TransferView {
                        status: TransferStatus::Rejected,
                        reason: Some(release_failed_reason_spec()),
                        review: ReviewState::Denied(decider),
                        ..t
                    },
                );
            },
            ReleaseStepView::Complete(nf, nt) => {
                let fi = t.from_account_id - 1;
                let ti = t.to_account_id - 1;
                let f = b.accounts[fi];
                let d = b.accounts[ti];
                let b1 = with_account(b, fi, AccountRec { balance: nf, ..f });
                let b2 = with_account(b1, ti, AccountRec { balance: nt, ..d });
                lemma_total_update(b.accounts, fi, AccountRec { balance: nf, ..f });
                assert(b1.accounts[ti] == d);
                lemma_total_update(b1.accounts, ti, AccountRec { balance: nt, ..d });
                lemma_books_ok_account(b, fi, AccountRec { balance: nf, ..f });
                lemma_books_ok_account(b1, ti, AccountRec { balance: nt, ..d });
                lemma_books_ok_transfer_fields(
                    b2,
                    idx,
                    TransferView {
                        status: TransferStatus::Completed,
                        otp_hash: None,
                        review: ReviewState::Released(decider),
                        ..t
                    },
                );
            },
        }
    }
}

/// A release conserves money, and moves it only for a held transfer whose
/// customer filed a review request, between two active accounts, with the
/// source able to pay; the released transfer is completed, so it cannot be
/// released again.
pub proof fn law_release_is_sound(b: Books, id: int, decider: i64, again: i64)
    requires
        books_ok(b),
    ensures
        total(release_ledger_spec(b, id, decider).0.accounts) == total(b.accounts),
        release_ledger_spec(b, id, decider).1 is Ok ==> {
            let t = b.transfers[id - 1];
            let b1 = release_ledger_spec(b, id, decider).0;
            &&& t.status == TransferStatus::OnHold
            &&& t.review == ReviewState::Filed
            &&& b.accounts[t.from_account_id - 1].balance >= t.amount
            &&& b1.accounts[t.from_account_id - 1].balance == b.accounts[t.from_account_id - 1].balance - t.amount
            &&& b1.accounts[t.to_account_id - 1].balance == b.accounts[t.to_account_id - 1].balance + t.amount
            &&& b1.transfers[id - 1].review == ReviewState::Released(decider)
            &&& release_ledger_spec(b1, id, again).1 is Err
            &&& release_ledger_spec(b1, id, again).0 == b1
        },
{
    lemma_release_effect(b, id, decider);
}

/// A denial never moves money and leaves the transfer rejected: it can be
/// neither released nor denied again.
pub proof fn law_denial_moves_no_money(b: Books, id: int, decider: i64, reason: Seq<char>, again: i64)
    requires
        books_ok(b),
    ensures
        deny_ledger_spec(b, id, decider, reason).0.accounts == b.accounts,
        deny_ledger_spec(b, id, decider, reason).1 is Ok ==> {
            let b1 = deny_ledger_spec(b, id, decider, reason).0;
            &&& b1.transfers[id - 1].status == TransferStatus::Rejected
            &&& release_ledger_spec(b1, id, again).1 is Err
            &&& deny_ledger_spec(b1, id, again, reason).1 is Err
        },
{
}

// ── Loans ───────────────────────────────────────────────────────────

/// The loan with id `id`.
pub open spec fn loan_at(b: Books, id: int) -> Option<LoanRec> {
    if 1 <= id <= b.loans.len() {
        Some(b.loans[id - 1])
    } else {
        None
    }
}

/// The books with loan row `idx` replaced.
pub open spec fn with_loan(b: Books, idx: int, n: LoanRec) -> Books {
    Books { loans: b.loans.update(idx, n), ..b }
}

/// Whether account `acct` can receive the payout of a loan to `user`: it
/// is one of the user's active accounts.
pub open spec fn payout_ok(b: Books, user: i64, acct: int) -> bool {
    match account_at(b, acct) {
        Some(a) => a.owner == user && a.status == AccountStatus::Active,
        None => false,
    }
}

/// The view of a loan-id result.
pub open spec fn id_answer(r: Result<i64, AppError>) -> Result<i64, (ErrorKind, Seq<char>)> {
    match r {
        Ok(x) => Ok(x),
        Err(e) => Err(e@),
    }
}

/// The view of a loan-status result.
pub open spec fn loan_answer(r: Result<LoanStatus, AppError>) -> Result<LoanStatus, (ErrorKind, Seq<char>)> {
    match r {
        Ok(x) => Ok(x),
        Err(e) => Err(e@),
    }
}

/// A loan application by `user`: the payout account must be one of the
/// user's active accounts and the terms must pass the application checks;
/// the loan is then recorded as pending with no approvals.
pub open spec fn apply_loan_spec(
    b: Books,
    user: i64,
    principal: i64,
    rate_bp: i64,
    term_months: i32,
    acct: i64,
    now: i64,
) -> (Books, Result<i64, (ErrorKind, Seq<char>)>) {
    if !payout_ok(b, user, acct as int) {
        (b, Err((ErrorKind::BadRequest, "Choose one of your active accounts for the payout."@)))
    } else {
        match application_check_spec(principal as int, rate_bp as int, term_months as int) {
            Some(e) => (b, Err(e)),
            None => {
                let id = (b.loans.len() + 1) as i64;
                (
                    Books {
                        loans: b.loans.push(
                            LoanRec {
                                id,
                                user_id: user,
                                principal,
                                rate_bp,
                                term_months,
                                status: LoanStatus::Pending,
                                disbursement_account_id: acct,
                                approvals: Approvals { teller: false, admin: false },
                                paid: 0,
                                repayments: 0,
                                next_payment_due: None,
                                created_at: now,
                            },
                        ),
                        ..b
                    },
                    Ok(id),
                )
            },
        }
    }
}

/// A staff approval of loan `id`. The first staff role's approval is
/// recorded; the other role's approval approves the loan and credits its
/// principal to the payout account.
pub open spec fn approve_loan_spec(b: Books, id: int, role: Role, now: i64) -> (Books, Result<LoanStatus, (ErrorKind, Seq<char>)>) {
    let st = match loan_at(b, id) {
        Some(n) => Some(n.status),
        None => None,
    };
    let have = match loan_at(b, id) {
        Some(n) => n.approvals,
        None => Approvals { teller: false, admin: false },
    };
    match approval_spec(id, role, st, have) {
        Err(e) => (b, Err(e)),
        Ok(ApprovalOutcome::Recorded(next)) => (
            with_loan(b, id - 1, LoanRec { approvals: next, ..b.loans[id - 1] }),
            Ok(LoanStatus::Pending),
        ),
        Ok(ApprovalOutcome::Complete(next)) => {
            let n = b.loans[id - 1];
            match account_at(b, n.disbursement_account_id as int) {
                None => (
                    b,
                    Err((ErrorKind::NotFound, "account "@ + int_text(n.disbursement_account_id as int) + " not found"@)),
                ),
                Some(a) => if a.balance + n.principal > MAX_CENTS {
                    (b, Err((ErrorKind::Internal, "numeric field overflow"@)))
                } else {
                    (
                        with_account(
                            with_loan(
                                b,
                                id - 1,
                                LoanRec {
                                    approvals: next,
                                    status: LoanStatus::Approved,
                                    next_payment_due: Some(add_month_spec(now as int) as i64),
                                    ..n
                                },
                            ),
                            a.id - 1,
                            AccountRec { balance: (a.balance + n.principal) as i64, ..a },
                        ),
                        Ok(LoanStatus::Approved),
                    )
                },
            }
        },
    }
}

/// A staff rejection of loan application `id`.
pub open spec fn reject_loan_spec(b: Books, id: int, role: Role) -> (Books, Result<LoanStatus, (ErrorKind, Seq<char>)>) {
    let st = match loan_at(b, id) {
        Some(n) => Some(n.status),
        None => None,
    };
    match reject_spec(id, role, st) {
        Some(e) => (b, Err(e)),
        None => (
            with_loan(b, id - 1, LoanRec { status: LoanStatus::Rejected, ..b.loans[id - 1] }),
            Ok(LoanStatus::Rejected),
        ),
    }
}

/// A repayment by `payer` of `amount` toward loan `id`, drawn from account
/// `acct`. Only the borrower repays, from one of their own accounts; the
/// account is debited, the repayment counted, and the loan is paid off once
/// what was paid covers the total due.
pub open spec fn repay_spec(b: Books, id: int, amount: i64, acct: int, payer: i64, now: i64) -> (Books, Result<LoanStatus, (ErrorKind, Seq<char>)>) {
    match loan_at(b, id) {
        None => (b, Err((ErrorKind::NotFound, "loan "@ + int_text(id) + " not found"@))),
        Some(n) => if n.user_id != payer {
            (b, Err((ErrorKind::Forbidden, Seq::empty())))
        } else {
            match account_at(b, acct) {
                None => (b, Err((ErrorKind::NotFound, "account "@ + int_text(acct) + " not found"@))),
                Some(a) => if a.owner != payer {
                    (b, Err((ErrorKind::Forbidden, Seq::empty())))
                } else {
                    match repayment_check_spec(id, amount as int, Some(n.status), a.status == AccountStatus::Active, a.balance as int) {
                        Some(e) => (b, Err(e)),
                        None => {
                            let paid = n.paid + amount;
                            let st = status_after_repayment(
                                total_due_scaled(n.principal as int, n.rate_bp as int, n.term_months as int),
                                paid,
                            );
                            let b1 = with_loan(
                                with_account(b, acct - 1, AccountRec { balance: (a.balance - amount) as i64, ..a }),
                                id - 1,
                                LoanRec {
                                    paid: paid as i128,
                                    status: st,
                                    repayments: (n.repayments + 1) as i128,
                                    next_payment_due: due_after_repayment(n.next_payment_due, st, now),
                                    ..n
                                },
                            );
                            (
                                Books {
                                    repayments: b1.repayments.push(
                                        RepaymentRec {
                                            id: (b.repayments.len() + 1) as i64,
                                            loan_id: id as i64,
                                            amount,
                                            account_id: acct as i64,
                                            paid_at: now,
                                        },
                                    ),
                                    ..b1
                                },
                                Ok(st),
                            )
                        },
                    }
                },
            }
        },
    }
}

/// The repayments of loan `loan` among `rs`, newest first.
pub open spec fn repayments_of(rs: Seq<RepaymentRec>, loan: i64) -> Seq<RepaymentRec>
    decreases rs.len(),
{
    if rs.len() == 0 {
        Seq::empty()
    } else {
        let rest = repayments_of(rs.drop_last(), loan);
        if rs.last().loan_id == loan {
            seq![rs.last()] + rest
        } else {
            rest
        }
    }
}

/// The due date after a repayment that left the loan in status `st`:
/// none once paid off; else a calendar month after the previous due date
/// (or after `now`, for a loan that had none), kept as it is where it is
/// too far out to advance.
pub open spec fn due_after_repayment(due: Option<i64>, st: LoanStatus, now: i64) -> Option<i64> {
    if st == LoanStatus::PaidOff {
        None
    } else {
        match due {
            Some(d) => if 0 <= d <= LAST_ADVANCEABLE {
                Some(add_month_spec(d as int) as i64)
            } else {
                Some(d)
            },
            None => Some(add_month_spec(now as int) as i64),
        }
    }
}

/// What a loan still owes, in `1 / TOTAL_DUE_SCALE` cent.
pub open spec fn loan_outstanding(n: LoanRec) -> int {
    outstanding_scaled(total_due_scaled(n.principal as int, n.rate_bp as int, n.term_months as int), n.paid as int)
}

/// What the approved and active loans still owe, in `1 / TOTAL_DUE_SCALE`
/// cent.
pub open spec fn portfolio_spec(ls: Seq<LoanRec>) -> int
    decreases ls.len(),
{
    if ls.len() == 0 {
        0
    } else {
        portfolio_spec(ls.drop_last()) + if ls.last().status == LoanStatus::Approved
            || ls.last().status == LoanStatus::Active {
            loan_outstanding(ls.last())
        } else {
            0
        }
    }
}

/// The bounds of a sound loan's total due and payments.
proof fn lemma_loan_bounds(n: LoanRec)
    requires
        loan_ok(n),
    ensures
        0 < total_due_scaled(n.principal as int, n.rate_bp as int, n.term_months as int) <= MAX_CENTS * 3_720_000,
        (n.status == LoanStatus::Approved || n.status == LoanStatus::Active) ==> n.paid < 31 * MAX_CENTS,
        0 <= loan_outstanding(n) <= MAX_CENTS * 3_720_000,
{
    let p = n.principal as int;
    let f = TOTAL_DUE_SCALE + (n.rate_bp as int) * (n.term_months as int);
    assert(0 <= (n.rate_bp as int) * (n.term_months as int) <= 9_999 * 360) by (nonlinear_arith)
        requires
            0 <= n.rate_bp < 10_000,
            1 <= n.term_months <= 360,
    ;
    assert(0 < p * f <= MAX_CENTS * 3_720_000) by (nonlinear_arith)
        requires
            0 < p <= MAX_CENTS,
            0 < f <= 3_720_000,
    ;
    if n.status == LoanStatus::Approved || n.status == LoanStatus::Active {
        assert(n.paid < 31 * MAX_CENTS) by (nonlinear_arith)
            requires
                n.paid * 120_000 < p * f,
                p * f <= MAX_CENTS * 3_720_000,
        ;
    }
}

/// Replacing a loan row with a sound one of the same id keeps the books sound.
proof fn lemma_books_ok_loan(b: Books, idx: int, n: LoanRec)
    requires
        books_ok(b),
        0 <= idx < b.loans.len(),
        n.id == b.loans[idx].id,
        loan_ok(n),
    ensures
        books_ok(with_loan(b, idx, n)),
{
    let b2 = with_loan(b, idx, n);
    assert forall|k: int| 0 <= k < b2.loans.len() implies {
        let x = #[trigger] b2.loans[k];
        &&& x.id == k + 1
        &&& loan_ok(x)
    } by {
        if k != idx {
            assert(b2.loans[k] == b.loans[k]);
        }
    }
}

impl Ledger {
    /// The loan with id `id`, if any.
    pub fn loan(&self, id: i64) -> (r: Option<LoanRec>)
        ensures
            r == loan_at(self@, id as int),
    {
        if 1 <= id && (id as u64) <= (self.loans.len() as u64) {
            Some(self.loans[(id - 1) as usize])
        } else {
            None
        }
    }

    /// Replaces loan row `idx`.
    fn put_loan(&mut self, idx: usize, n: LoanRec)
        requires
            idx < old(self)@.loans.len(),
        ensures
            final(self)@ == with_loan(old(self)@, idx as int, n),
    {
        self.loans.set(idx, n);
        proof {
            assert(self@.transfers =~= old(self)@.transfers);
            assert(self@ =~= with_loan(old(self)@, idx as int, n));
        }
    }

    /// A loan application; returns the new loan's id.
    pub fn apply_loan(
        &mut self,
        user: i64,
        principal: i64,
        rate_bp: i64,
        term_months: i32,
        acct: i64,
        now: i64,
    ) -> (r: Result<i64, AppError>)
        requires
            books_ok(old(self)@),
            old(self)@.loans.len() + 1 < i64::MAX,
            money_ok(principal as int),
        ensures
            books_ok(final(self)@),
            final(self)@ == apply_loan_spec(old(self)@, user, principal, rate_bp, term_months, acct, now).0,
            id_answer(r) == apply_loan_spec(old(self)@, user, principal, rate_bp, term_months, acct, now).1,
    {
        let ok = match self.account(acct) {
            Some(a) => a.owner == user && a.status == AccountStatus::Active,
            None => false,
        };
        if !ok {
            return Err(AppError::BadRequest("Choose one of your active accounts for the payout.".to_owned()));
        }
        match check_application(principal, rate_bp, term_months) {
            Err(e) => Err(e),
            Ok(()) => {
                let id = self.loans.len() as i64 + 1;
                let n = LoanRec {
                    id,
                    user_id: user,
                    principal,
                    rate_bp,
                    term_months,
                    status: LoanStatus::Pending,
                    disbursement_account_id: acct,
                    approvals: Approvals { teller: false, admin: false },
                    paid: 0,
                    repayments: 0,
                    next_payment_due: None,
                    created_at: now,
                };
                self.loans.push(n);
                proof {
                    assert(self@ =~= apply_loan_spec(old(self)@, user, principal, rate_bp, term_months, acct, now).0);
                    assert(loan_ok(n));
                    let b2 = self@;
                    assert forall|k: int| 0 <= k < b2.loans.len() implies {
                        let x = #[trigger] b2.loans[k];
                        &&& x.id == k + 1
                        &&& loan_ok(x)
                    } by {
                        if k < old(self)@.loans.len() {
                            assert(b2.loans[k] == old(self)@.loans[k]);
                        }
                    }
                }
                Ok(id)
            },
        }
    }

    /// A staff approval of loan `id`; answers the loan's status after it.
    /// `now` is when the approval is given; the first repayment falls due
    /// a calendar month later.
    pub fn approve_loan(&mut self, id: i64, role: Role, now: i64) -> (r: Result<LoanStatus, AppError>)
        requires
            books_ok(old(self)@),
            0 <= now <= LAST_ADVANCEABLE,
        ensures
            books_ok(final(self)@),
            final(self)@ == approve_loan_spec(old(self)@, id as int, role, now).0,
            loan_answer(r) == approve_loan_spec(old(self)@, id as int, role, now).1,
    {
        let found = self.loan(id);
        let st = match found {
            Some(n) => Some(n.status),
            None => None,
        };
        let have = match found {
            Some(n) => n.approvals,
            None => Approvals { teller: false, admin: false },
        };
        match record_approval(id, role, st, have) {
            Err(e) => Err(e),
            Ok(ApprovalOutcome::Recorded(next)) => {
                let k = self.loans.len();
                let n = self.loans[(id - 1) as usize];
                assert(n == self@.loans[id - 1]);
                proof {
                    lemma_books_ok_loan(self@, id - 1, LoanRec { approvals: next, ..n });
                }
                self.put_loan((id - 1) as usize, LoanRec { approvals: next, ..n });
                Ok(LoanStatus::Pending)
            },
            Ok(ApprovalOutcome::Complete(next)) => {
                let k = self.loans.len();
                let n = self.loans[(id - 1) as usize];
                assert(n == self@.loans[id - 1]);
                match self.account(n.disbursement_account_id) {
                    None => {
                        let mut m = "account ".to_owned();
                        m.append(i64_text(n.disbursement_account_id).as_str());
                        m.append(" not found");
                        Err(AppError::NotFound(m))
                    },
                    Some(a) => if a.balance > MAX_CENTS - n.principal {
                        Err(AppError::Internal("numeric field overflow".to_owned()))
                    } else {
                        let due = add_month(now);
                        let n2 = LoanRec { approvals: next, status: LoanStatus::Approved, next_payment_due: Some(due), ..n };
                        proof {
                            lemma_loan_bounds(n);
                            lemma_books_ok_loan(self@, id - 1, n2);
                        }
                        self.put_loan((id - 1) as usize, n2);
                        let na = self.accounts.len();
                        let a2 = AccountRec { balance: a.balance + n.principal, ..a };
                        proof {
                            lemma_books_ok_account(self@, a.id - 1, a2);
                        }
                        self.put_account((a.id - 1) as usize, a2);
                        Ok(LoanStatus::Approved)
                    },
                }
            },
        }
    }

    /// A staff rejection of loan application `id`.
    pub fn reject_loan(&mut self, id: i64, role: Role) -> (r: Result<LoanStatus, AppError>)
        requires
            books_ok(old(self)@),
        ensures
            books_ok(final(self)@),
            final(self)@ == reject_loan_spec(old(self)@, id as int, role).0,
            loan_answer(r) == reject_loan_spec(old(self)@, id as int, role).1,
    {
        let st = match self.loan(id) {
            Some(n) => Some(n.status),
            None => None,
        };
        match check_reject(id, role, st) {
            Err(e) => Err(e),
            Ok(()) => {
                let k = self.loans.len();
                let n = self.loans[(id - 1) as usize];
                assert(n == self@.loans[id - 1]);
                proof {
                    lemma_books_ok_loan(self@, id - 1, LoanRec { status: LoanStatus::Rejected, ..n });
                }
                self.put_loan((id - 1) as usize, LoanRec { status: LoanStatus::Rejected, ..n });
                Ok(LoanStatus::Rejected)
            },
        }
    }

    /// A repayment by `payer` toward loan `id` from account `acct`;
    /// answers the loan's status after it.
    /// `now` is when the repayment is made; it is recorded with it.
    pub fn repay_loan(&mut self, id: i64, amount: i64, acct: i64, payer: i64, now: i64) -> (r: Result<LoanStatus, AppError>)
        requires
            books_ok(old(self)@),
            0 <= now <= LAST_ADVANCEABLE,
            old(self)@.repayments.len() + 1 < i64::MAX,
        ensures
            books_ok(final(self)@),
            final(self)@ == repay_spec(old(self)@, id as int, amount, acct as int, payer, now).0,
            loan_answer(r) == repay_spec(old(self)@, id as int, amount, acct as int, payer, now).1,
    {
        let n = match self.loan(id) {
            None => {
                let mut m = "loan ".to_owned();
                m.append(i64_text(id).as_str());
                m.append(" not found");
                return Err(AppError::NotFound(m));
            },
            Some(n) => n,
        };
        if n.user_id != payer {
            return Err(AppError::Forbidden);
        }
        let a = match self.account(acct) {
            None => {
                let mut m = "account ".to_owned();
                m.append(i64_text(acct).as_str());
                m.append(" not found");
                return Err(AppError::NotFound(m));
            },
            Some(a) => a,
        };
        if a.owner != payer {
            return Err(AppError::Forbidden);
        }
        match check_repayment(id, amount, Some(n.status), a.status == AccountStatus::Active, a.balance) {
            Err(e) => Err(e),
            Ok(()) => {
                proof {
                    lemma_loan_bounds(n);
                }
                let paid: i128 = n.paid + amount as i128;
                let due = total_due(n.principal, n.rate_bp, n.term_months);
                let st = if due - paid * TOTAL_DUE_SCALE <= 0 {
                    LoanStatus::PaidOff
                } else {
                    LoanStatus::Active
                };
                let na = self.accounts.len();
                let a2 = AccountRec { balance: a.balance - amount, ..a };
                proof {
                    lemma_books_ok_account(self@, acct - 1, a2);
                }
                self.put_account((acct - 1) as usize, a2);
                let k = self.loans.len();
                let due = if st == LoanStatus::PaidOff {
                    None
                } else {
                    match n.next_payment_due {
                        Some(d) => if 0 <= d && d <= LAST_ADVANCEABLE {
                            Some(add_month(d))
                        } else {
                            Some(d)
                        },
                        None => Some(add_month(now)),
                    }
                };
                let n2 = LoanRec { paid, status: st, repayments: n.repayments + 1, next_payment_due: due, ..n };
                proof {
                    assert(loan_ok(n2));
                    lemma_books_ok_loan(self@, id - 1, n2);
                }
                self.put_loan((id - 1) as usize, n2);
                let ghost b1 = self@;
                let rid = self.repayments.len() as i64 + 1;
                self.repayments.push(RepaymentRec { id: rid, loan_id: id, amount, account_id: acct, paid_at: now });
                proof {
                    assert(self@.transfers =~= b1.transfers);
                    assert(self@ =~= Books { repayments: b1.repayments.push(RepaymentRec { id: rid, loan_id: id, amount, account_id: acct, paid_at: now }), ..b1 });
                }
                Ok(st)
            },
        }
    }

    /// The number of repayments recorded.
    pub fn repayments_recorded(&self) -> (n: usize)
        ensures
            n == self@.repayments.len(),
    {
        self.repayments.len()
    }

    /// The repayments of loan `loan`, newest first.
    pub fn list_repayments(&self, loan: i64) -> (r: Vec<RepaymentRec>)
        ensures
            r@ == repayments_of(self@.repayments, loan),
    {
        let ghost rs = self@.repayments;
        let mut out: Vec<RepaymentRec> = Vec::new();
        let mut i: usize = self.repayments.len();
        proof {
            assert(rs.subrange(0, i as int) =~= rs);
            assert(out@ + repayments_of(rs, loan) =~= repayments_of(rs, loan));
        }
        while i > 0
            invariant
                rs == self@.repayments,
                i <= rs.len(),
                out@ + repayments_of(rs.subrange(0, i as int), loan) == repayments_of(rs, loan),
            decreases i,
        {
            let x = self.repayments[i - 1];
            let ghost before = out@;
            proof {
                assert(rs.subrange(0, i as int).drop_last() =~= rs.subrange(0, i - 1));
                assert(rs.subrange(0, i as int).last() == x);
            }
            if x.loan_id == loan {
                out.push(x);
                proof {
                    assert(out@ + repayments_of(rs.subrange(0, i - 1), loan) =~= before + repayments_of(rs.subrange(0, i as int), loan));
                }
            }
            i = i - 1;
        }
        proof {
            assert(rs.subrange(0, 0) =~= Seq::<RepaymentRec>::empty());
            assert(out@ + Seq::<RepaymentRec>::empty() =~= out@);
        }
        out
    }

    /// What loan `id` still owes, in `1 / TOTAL_DUE_SCALE` cent.
    pub fn outstanding_balance(&self, id: i64) -> (r: Result<i128, AppError>)
        requires
            books_ok(self@),
        ensures
            r is Ok <==> loan_at(self@, id as int) is Some,
            r matches Ok(x) ==> x == loan_outstanding(self@.loans[id - 1]),
            r matches Err(e) ==> e@ == (ErrorKind::NotFound, "loan "@ + int_text(id as int) + " not found"@),
    {
        match self.loan(id) {
            None => {
                let mut m = "loan ".to_owned();
                m.append(i64_text(id).as_str());
                m.append(" not found");
                Err(AppError::NotFound(m))
            },
            Some(n) => {
                proof {
                    assert(loan_ok(n));
                    lemma_loan_bounds(n);
                }
                let due = total_due(n.principal, n.rate_bp, n.term_months);
                Ok(outstanding(due, n.paid))
            },
        }
    }

    /// What the approved and active loans still owe, in `1 / TOTAL_DUE_SCALE`
    /// cent.
    pub fn portfolio_outstanding(&self) -> (t: i128)
        requires
            books_ok(self@),
            self@.loans.len() <= 10_000_000_000_000,
        ensures
            t == portfolio_spec(self@.loans),
    {
        let mut t: i128 = 0;
        let mut i: usize = 0;
        while i < self.loans.len()
            invariant
                books_ok(self@),
                self@.loans.len() <= 10_000_000_000_000,
                i <= self.loans@.len(),
                0 <= t <= i * (MAX_CENTS * 3_720_000),
                t == portfolio_spec(self@.loans.subrange(0, i as int)),
            decreases self.loans@.len() - i,
        {
            proof {
                assert(self@.loans.subrange(0, i + 1).drop_last() =~= self@.loans.subrange(0, i as int));
            }
            let n = self.loans[i];
            assert(n == self@.loans[i as int]);
            proof {
                lemma_loan_bounds(n);
                assert(i * (MAX_CENTS * 3_720_000) + MAX_CENTS * 3_720_000 <= 10_000_000_000_000 * (MAX_CENTS * 3_720_000)) by (nonlinear_arith)
                    requires
                        i < 10_000_000_000_000,
                ;
                assert((i + 1) * (MAX_CENTS * 3_720_000) == i * (MAX_CENTS * 3_720_000) + MAX_CENTS * 3_720_000) by (nonlinear_arith);
            }
            if n.status == LoanStatus::Approved || n.status == LoanStatus::Active {
                let due = total_due(n.principal, n.rate_bp, n.term_months);
                t = t + outstanding(due, n.paid);
            }
            i = i + 1;
        }
        proof {
            assert(self@.loans.subrange(0, i as int) =~= self@.loans);
        }
        t
    }
}

/// A repayment moves exactly its amount out of the bank's accounts, adds
/// it to what was paid on the loan, and advances the due date a calendar
/// month, or clears it when the loan is paid off.
pub proof fn law_repayment_moves_exactly_the_amount(b: Books, id: int, amount: i64, acct: int, payer: i64, now: i64)
    requires
        books_ok(b),
        repay_spec(b, id, amount, acct, payer, now).1 is Ok,
    ensures
        ({
            let b1 = repay_spec(b, id, amount, acct, payer, now).0;
            &&& b1.repayments == b.repayments.push(
                RepaymentRec { id: (b.repayments.len() + 1) as i64, loan_id: id as i64, amount, account_id: acct as i64, paid_at: now },
            )
            &&& total(b1.accounts) == total(b.accounts) - amount
            &&& b1.loans[id - 1].paid == b.loans[id - 1].paid + amount
            &&& b1.loans[id - 1].next_payment_due == due_after_repayment(
                b.loans[id - 1].next_payment_due,
                b1.loans[id - 1].status,
                now,
            )
            &&& (b1.loans[id - 1].status == LoanStatus::PaidOff <==> b1.loans[id - 1].next_payment_due is None)
            &&& b1.accounts[acct - 1].balance == b.accounts[acct - 1].balance - amount
            &&& b1.loans.len() == b.loans.len()
        }),
{
    let a = b.accounts[acct - 1];
    lemma_total_update(b.accounts, acct - 1, AccountRec { balance: (a.balance - amount) as i64, ..a });
}

/// A paid-off, rejected or undecided loan takes no repayment, and the
/// books are left as they were.
pub proof fn law_only_approved_or_active_loans_are_repaid(b: Books, id: int, amount: i64, acct: int, payer: i64, now: i64)
    requires
        books_ok(b),
        loan_at(b, id) matches Some(n) && n.status != LoanStatus::Approved && n.status != LoanStatus::Active,
    ensures
        repay_spec(b, id, amount, acct, payer, now).1 is Err,
        repay_spec(b, id, amount, acct, payer, now).0 == b,
{
}

/// A loan is paid out only by the approval that completes the teller-and-
/// admin pair: that approval credits exactly the principal to the payout
/// account and sets the first due date a calendar month out, and no later
/// approval pays out again.
pub proof fn law_loan_pays_out_once_after_both_roles(b: Books, id: int, role: Role, role2: Role, now: i64, now2: i64)
    requires
        books_ok(b),
        approve_loan_spec(b, id, role, now).1 == Ok::<LoanStatus, (ErrorKind, Seq<char>)>(LoanStatus::Approved),
    ensures
        ({
            let n = b.loans[id - 1];
            let b1 = approve_loan_spec(b, id, role, now).0;
            &&& (role == Role::Teller && n.approvals.admin) || (role == Role::Admin && n.approvals.teller)
            &&& total(b1.accounts) == total(b.accounts) + n.principal
            &&& b1.loans[id - 1].status == LoanStatus::Approved
            &&& b1.loans[id - 1].next_payment_due == Some(add_month_spec(now as int) as i64)
            &&& approve_loan_spec(b1, id, role2, now2).1 is Err
            &&& approve_loan_spec(b1, id, role2, now2).0 == b1
        }),
{
    let n = b.loans[id - 1];
    let a = b.accounts[n.disbursement_account_id - 1];
    let b0 = with_loan(
        b,
        id - 1,
        LoanRec {
            approvals: Approvals { teller: true, admin: true },
            status: LoanStatus::Approved,
            next_payment_due: Some(add_month_spec(now as int) as i64),
            ..n
        },
    );
    assert(b0.accounts == b.accounts);
    lemma_total_update(b.accounts, a.id - 1, AccountRec { balance: (a.balance + n.principal) as i64, ..a });
}

/// The first approval of a pending loan may come from either staff role:
/// it is recorded with that role's mark alone, the loan stays pending and
/// no money moves.
pub proof fn law_first_approval_by_either_role_is_recorded(b: Books, id: int, role: Role, now: i64)
    requires
        books_ok(b),
        loan_at(b, id) matches Some(n) && n.status == LoanStatus::Pending && !n.approvals.teller && !n.approvals.admin,
        role == Role::Teller || role == Role::Admin,
    ensures
        approve_loan_spec(b, id, role, now).1 == Ok::<LoanStatus, (ErrorKind, Seq<char>)>(LoanStatus::Pending),
        approve_loan_spec(b, id, role, now).0.loans[id - 1].approvals == (Approvals {
            teller: role == Role::Teller,
            admin: role == Role::Admin,
        }),
        approve_loan_spec(b, id, role, now).0.loans[id - 1].status == LoanStatus::Pending,
        approve_loan_spec(b, id, role, now).0.accounts == b.accounts,
{
}

/// An approval that does not complete the pair moves no money and leaves
/// the loan pending.
pub proof fn law_first_approval_moves_no_money(b: Books, id: int, role: Role, now: i64)
    requires
        books_ok(b),
        approve_loan_spec(b, id, role, now).1 == Ok::<LoanStatus, (ErrorKind, Seq<char>)>(LoanStatus::Pending),
    ensures
        approve_loan_spec(b, id, role, now).0.accounts == b.accounts,
        approve_loan_spec(b, id, role, now).0.loans[id - 1].status == LoanStatus::Pending,
{
}

// ── Staff views of the books ────────────────────────────────────────

/// The bank's figures recorded at shutdown.
#[derive(Clone, Copy, Debug, PartialEq, Eq, Structural)]
pub struct SystemSnapshot {
    pub accounts: u64,
    pub active_accounts: u64,
    /// Cents held in active accounts.
    pub total_deposits: i128,
    pub transfers: u64,
    pub completed_transfers: u64,
    pub loans: u64,
    pub repayments: i128,
}

/// The number of completed transfers.
pub open spec fn completed_count(ts: Seq<TransferView>) -> int
    decreases ts.len(),
{
    if ts.len() == 0 {
        0
    } else {
        completed_count(ts.drop_last()) + if ts.last().status == TransferStatus::Completed {
            1int
        } else {
            0int
        }
    }
}

/// The number of repayments made on all loans.
pub open spec fn repayment_count(ls: Seq<LoanRec>) -> int
    decreases ls.len(),
{
    if ls.len() == 0 {
        0
    } else {
        repayment_count(ls.drop_last()) + ls.last().repayments
    }
}

/// The number of loan applications awaiting a decision.
pub open spec fn pending_loan_count(ls: Seq<LoanRec>) -> int
    decreases ls.len(),
{
    if ls.len() == 0 {
        0
    } else {
        pending_loan_count(ls.drop_last()) + if ls.last().status == LoanStatus::Pending {
            1int
        } else {
            0int
        }
    }
}

/// The snapshot of books `b`.
pub open spec fn snapshot_spec(b: Books) -> SystemSnapshot {
    SystemSnapshot {
        accounts: b.accounts.len() as u64,
        active_accounts: count_active_spec(b.accounts) as u64,
        total_deposits: deposits_spec(b.accounts) as i128,
        transfers: b.transfers.len() as u64,
        completed_transfers: completed_count(b.transfers) as u64,
        loans: b.loans.len() as u64,
        repayments: repayment_count(b.loans) as i128,
    }
}

/// The transfers from `from` created within the hour up to `at` (the
/// window `(at - 1h, at]`).
pub open spec fn velocity_count(ts: Seq<TransferView>, from: i64, at: int) -> int
    decreases ts.len(),
{
    if ts.len() == 0 {
        0
    } else {
        velocity_count(ts.drop_last(), from, at) + if ts.last().from_account_id == from
            && ts.last().created_at <= at && ts.last().created_at > at - HOUR_MICROS {
            1int
        } else {
            0int
        }
    }
}

/// Why the fraud panel flags transfer `t`, if it does: a rejection other
/// than insufficient funds, a hold, a large amount, or four or more
/// transfers from its account within the hour up to it.
pub open spec fn flag_of(ts: Seq<TransferView>, t: TransferView) -> Option<Seq<char>> {
    let rejected_signal = t.status == TransferStatus::Rejected && match t.reason {
        None => true,
        Some(r) => !is_overdraft_reason_spec(r),
    };
    if !(rejected_signal || t.status == TransferStatus::OnHold || t.amount >= LARGE_TRANSFER_CENTS
        || velocity_count(ts, t.from_account_id, t.created_at as int) >= 4) {
        None
    } else if t.status == TransferStatus::OnHold {
        Some(
            match t.reason {
                Some(r) => r,
                None => "On hold for review"@,
            },
        )
    } else if t.status == TransferStatus::Rejected {
        Some(
            match t.reason {
                Some(r) => r,
                None => "Rejected transfer"@,
            },
        )
    } else if t.amount >= LARGE_TRANSFER_CENTS {
        Some("Large transfer (>= $10,000)"@)
    } else {
        Some("High velocity: 4+ transfers from this account within 1 hour"@)
    }
}

/// The flagged transfers among the first `k`, newest first, with their
/// reasons.
pub open spec fn flagged_upto(ts: Seq<TransferView>, k: int) -> Seq<(i64, Seq<char>)>
    decreases k,
{
    if k <= 0 {
        Seq::empty()
    } else {
        let rest = flagged_upto(ts, k - 1);
        match flag_of(ts, ts[k - 1]) {
            Some(r) => seq![(ts[k - 1].id, r)] + rest,
            None => rest,
        }
    }
}

/// The fraud panel: at most the hundred newest flagged transfers.
pub open spec fn flagged_spec(ts: Seq<TransferView>) -> Seq<(i64, Seq<char>)> {
    let f = flagged_upto(ts, ts.len() as int);
    if f.len() > 100 {
        f.subrange(0, 100)
    } else {
        f
    }
}

impl Ledger {
    /// The number of transfers from `from` created within the hour up to `at`.
    fn count_velocity(&self, from: i64, at: i64) -> (r: u64)
        requires
            books_ok(self@),
        ensures
            r == velocity_count(self@.transfers, from, at as int),
    {
        let ghost ts = self@.transfers;
        let n = self.transfers.len();
        let mut c: u64 = 0;
        let mut i: usize = 0;
        while i < n
            invariant
                ts == self@.transfers,
                n == ts.len(),
                i <= n,
                c <= i,
                c == velocity_count(ts.subrange(0, i as int), from, at as int),
            decreases n - i,
        {
            let t = &self.transfers[i];
            proof {
                assert(ts.subrange(0, i + 1).drop_last() =~= ts.subrange(0, i as int));
                assert(ts.subrange(0, i + 1).last() == t@);
            }
            if t.from_account_id == from && t.created_at <= at && (t.created_at as i128) > (at as i128) - (HOUR_MICROS as i128) {
                c = c + 1;
            }
            i = i + 1;
        }
        proof {
            assert(ts.subrange(0, n as int) =~= ts);
        }
        c
    }

    /// The fraud panel's list: the hundred newest flagged transfers, each
    /// with the reason it is flagged.
    pub fn flagged_transfers(&self) -> (r: Vec<(i64, String)>)
        requires
            books_ok(self@),
        ensures
            r@.len() == flagged_spec(self@.transfers).len(),
            forall|k: int|
                0 <= k < r@.len() ==> (#[trigger] r@[k]).0 == flagged_spec(self@.transfers)[k].0
                    && r@[k].1@ == flagged_spec(self@.transfers)[k].1,
    {
        let ghost ts = self@.transfers;
        let ghost full = flagged_upto(ts, ts.len() as int);
        let n = self.transfers.len();
        let mut out: Vec<(i64, String)> = Vec::new();
        let ghost mut outv: Seq<(i64, Seq<char>)> = Seq::empty();
        let mut i: usize = n;
        while i > 0 && out.len() < 100
            invariant
                books_ok(self@),
                ts == self@.transfers,
                n == ts.len(),
                full == flagged_upto(ts, n as int),
                i <= n,
                out@.len() == outv.len(),
                out@.len() <= 100,
                forall|k: int| 0 <= k < out@.len() ==> (#[trigger] out@[k]).0 == outv[k].0 && out@[k].1@ == outv[k].1,
                outv + flagged_upto(ts, i as int) == full,
            decreases i,
        {
            let t = &self.transfers[i - 1];
            assert(ts[i - 1] == t@);
            let rejected_signal = t.status == TransferStatus::Rejected && match &t.reason {
                None => true,
                Some(r) => !is_overdraft_reason(r.as_str()),
            };
            let flagged = rejected_signal || t.status == TransferStatus::OnHold || t.amount
                >= LARGE_TRANSFER_CENTS || self.count_velocity(t.from_account_id, t.created_at) >= 4;
            if flagged {
                let reason: String = if t.status == TransferStatus::OnHold {
                    match &t.reason {
                        Some(r) => r.clone(),
                        None => "On hold for review".to_owned(),
                    }
                } else if t.status == TransferStatus::Rejected {
                    match &t.reason {
                        Some(r) => r.clone(),
                        None => "Rejected transfer".to_owned(),
                    }
                } else if t.amount >= LARGE_TRANSFER_CENTS {
                    "Large transfer (>= $10,000)".to_owned()
                } else {
                    "High velocity: 4+ transfers from this account within 1 hour".to_owned()
                };
                assert(flag_of(ts, ts[i - 1]) == Some(reason@));
                let ghost item = (t.id, reason@);
                out.push((t.id, reason));
                proof {
                    assert(seq![item] + flagged_upto(ts, i - 1) == flagged_upto(ts, i as int));
                    assert(outv.push(item) + flagged_upto(ts, i - 1) =~= outv + flagged_upto(ts, i as int));
                    outv = outv.push(item);
                }
            } else {
                assert(flag_of(ts, ts[i - 1]) is None);
            }
            i = i - 1;
        }
        proof {
            if i == 0 {
                assert(outv =~= full);
            } else {
                assert(out@.len() == 100);
                assert(full.subrange(0, 100) =~= outv);
            }
        }
        out
    }

    /// The books' figures for the shutdown snapshot.
    pub fn snapshot(&self) -> (s: SystemSnapshot)
        requires
            books_ok(self@),
            self@.loans.len() <= 10_000_000_000_000,
        ensures
            s == snapshot_spec(self@),
    {
        let active = self.count_active();
        let deposits = self.total_deposits();
        let ghost ts = self@.transfers;
        let n = self.transfers.len();
        let mut completed: u64 = 0;
        let mut i: usize = 0;
        while i < n
            invariant
                ts == self@.transfers,
                n == ts.len(),
                i <= n,
                completed <= i,
                completed == completed_count(ts.subrange(0, i as int)),
            decreases n - i,
        {
            let t = &self.transfers[i];
            proof {
                assert(ts.subrange(0, i + 1).drop_last() =~= ts.subrange(0, i as int));
                assert(ts.subrange(0, i + 1).last() == t@);
            }
            if t.status == TransferStatus::Completed {
                completed = completed + 1;
            }
            i = i + 1;
        }
        proof {
            assert(ts.subrange(0, n as int) =~= ts);
        }
        let ghost ls = self@.loans;
        let m = self.loans.len();
        let mut reps: i128 = 0;
        let mut j: usize = 0;
        while j < m
            invariant
                books_ok(self@),
                ls == self@.loans,
                m == ls.len(),
                m <= 10_000_000_000_000,
                j <= m,
                0 <= reps <= j * (40 * MAX_CENTS),
                reps == repayment_count(ls.subrange(0, j as int)),
            decreases m - j,
        {
            let l = self.loans[j];
            assert(l == ls[j as int]);
            proof {
                assert(ls.subrange(0, j + 1).drop_last() =~= ls.subrange(0, j as int));
                assert(loan_ok(l));
                assert((j + 1) * (40 * MAX_CENTS) == j * (40 * MAX_CENTS) + 40 * MAX_CENTS) by (nonlinear_arith);
                assert(j * (40 * MAX_CENTS) + 40 * MAX_CENTS <= 10_000_000_000_000 * (40 * MAX_CENTS)) by (nonlinear_arith)
                    requires
                        j < 10_000_000_000_000,
                ;
            }
            reps = reps + l.repayments;
            j = j + 1;
        }
        proof {
            assert(ls.subrange(0, m as int) =~= ls);
        }
        SystemSnapshot {
            accounts: self.accounts.len() as u64,
            active_accounts: active as u64,
            total_deposits: deposits,
            transfers: n as u64,
            completed_transfers: completed,
            loans: m as u64,
            repayments: reps,
        }
    }

    /// The number of loan applications awaiting a decision.
    pub fn pending_loans(&self) -> (c: u64)
        ensures
            c == pending_loan_count(self@.loans),
    {
        let ghost ls = self@.loans;
        let m = self.loans.len();
        let mut c: u64 = 0;
        let mut j: usize = 0;
        while j < m
            invariant
                ls == self@.loans,
                m == ls.len(),
                j <= m,
                c <= j,
                c == pending_loan_count(ls.subrange(0, j as int)),
            decreases m - j,
        {
            let l = self.loans[j];
            assert(l == ls[j as int]);
            proof {
                assert(ls.subrange(0, j + 1).drop_last() =~= ls.subrange(0, j as int));
            }
            if l.status == LoanStatus::Pending {
                c = c + 1;
            }
            j = j + 1;
        }
        proof {
            assert(ls.subrange(0, m as int) =~= ls);
        }
        c
    }
}

// ── Lists for the pages ─────────────────────────────────────────────

/// `user`'s accounts, in the order they were opened.
pub open spec fn accounts_of_spec(accs: Seq<AccountRec>, user: i64) -> Seq<AccountRec>
    decreases accs.len(),
{
    if accs.len() == 0 {
        Seq::empty()
    } else {
        let p = accounts_of_spec(accs.drop_last(), user);
        if accs.last().owner == user {
            p.push(accs.last())
        } else {
            p
        }
    }
}

/// Whether transfer `t` moves money from or to one of `user`'s accounts.
pub open spec fn touches(b: Books, t: TransferView, user: i64) -> bool {
    (match account_at(b, t.from_account_id as int) {
        Some(a) => a.owner == user,
        None => false,
    }) || (match account_at(b, t.to_account_id as int) {
        Some(a) => a.owner == user,
        None => false,
    })
}

/// The ids of the transfers among the first `k` that touch `user`'s
/// accounts, newest first.
pub open spec fn history_upto(b: Books, user: i64, k: int) -> Seq<i64>
    decreases k,
{
    if k <= 0 {
        Seq::empty()
    } else {
        let rest = history_upto(b, user, k - 1);
        if touches(b, b.transfers[k - 1], user) {
            seq![b.transfers[k - 1].id] + rest
        } else {
            rest
        }
    }
}

/// A user's transfer history: the ids of the two hundred newest transfers
/// from or to their accounts.
pub open spec fn history_spec(b: Books, user: i64) -> Seq<i64> {
    let h = history_upto(b, user, b.transfers.len() as int);
    if h.len() > 200 {
        h.subrange(0, 200)
    } else {
        h
    }
}

/// Whether `user` owns account `account_id`.
pub open spec fn owns(b: Books, user: i64, account_id: i64) -> bool {
    match account_at(b, account_id as int) {
        Some(a) => a.owner == user,
        None => false,
    }
}

/// The reason a history row shows: the transfer's own, or for a rejected
/// or failed transfer without one, a pointer to the staff.
pub open spec fn shown_reason(t: TransferView) -> Option<Seq<char>> {
    match t.reason {
        Some(x) => Some(x),
        None => if t.status == TransferStatus::Rejected || t.status == TransferStatus::Failed {
            Some("Please contact an administrator."@)
        } else {
            None
        },
    }
}

/// The number of account `id`, if there is one.
pub open spec fn number_of(b: Books, id: i64) -> Option<u64> {
    match account_at(b, id as int) {
        Some(a) => Some(a.number),
        None => None,
    }
}

/// The owner of account `id`, if there is one.
pub open spec fn owner_of(b: Books, id: i64) -> Option<i64> {
    match account_at(b, id as int) {
        Some(a) => Some(a.owner),
        None => None,
    }
}

/// A row of a customer's transfer history, seen from their side: which of
/// their accounts the transfer touched, the account on the other side and
/// its owner (whose name the page shows), and the reason to show.
pub struct HistoryRow {
    pub id: i64,
    pub amount: i64,
    pub status: TransferStatus,
    pub reason: Option<String>,
    pub note: Option<String>,
    pub created_at: i64,
    /// The money left one of the viewer's own accounts.
    pub outgoing: bool,
    pub own_account_id: i64,
    pub own_number: Option<u64>,
    pub counterparty_account_id: i64,
    pub counterparty_number: Option<u64>,
    pub counterparty_owner: Option<i64>,
}

/// The ids of the transfers on hold, oldest first.
pub open spec fn held_spec(ts: Seq<TransferView>) -> Seq<i64>
    decreases ts.len(),
{
    if ts.len() == 0 {
        Seq::empty()
    } else {
        let p = held_spec(ts.drop_last());
        if ts.last().status == TransferStatus::OnHold {
            p.push(ts.last().id)
        } else {
            p
        }
    }
}

/// The loans `keep` selects, oldest first.
pub open spec fn loans_where(ls: Seq<LoanRec>, keep: spec_fn(LoanRec) -> bool) -> Seq<LoanRec>
    decreases ls.len(),
{
    if ls.len() == 0 {
        Seq::empty()
    } else {
        let p = loans_where(ls.drop_last(), keep);
        if keep(ls.last()) {
            p.push(ls.last())
        } else {
            p
        }
    }
}

/// Whether a loan is `user`'s.
pub open spec fn borrowed_by(user: i64) -> spec_fn(LoanRec) -> bool {
    |n: LoanRec| n.user_id == user
}

/// Whether a loan awaits a decision.
pub open spec fn awaiting_decision() -> spec_fn(LoanRec) -> bool {
    |n: LoanRec| n.status == LoanStatus::Pending
}

impl Ledger {
    /// `user`'s accounts, in the order they were opened.
    pub fn accounts_of(&self, user: i64) -> (r: Vec<AccountRec>)
        ensures
            r@ == accounts_of_spec(self@.accounts, user),
    {
        let ghost accs = self@.accounts;
        let n = self.accounts.len();
        let mut out: Vec<AccountRec> = Vec::new();
        let mut i: usize = 0;
        while i < n
            invariant
                accs == self@.accounts,
                n == accs.len(),
                i <= n,
                out@ == accounts_of_spec(accs.subrange(0, i as int), user),
            decreases n - i,
        {
            proof {
                assert(accs.subrange(0, i + 1).drop_last() =~= accs.subrange(0, i as int));
            }
            let a = self.accounts[i];
            if a.owner == user {
                out.push(a);
            }
            i = i + 1;
        }
        proof {
            assert(accs.subrange(0, n as int) =~= accs);
        }
        out
    }

    /// Transfer `id` as a row of `user`'s history, if it touches one of
    /// their accounts.
    pub fn history_row(&self, user: i64, id: i64) -> (r: Option<HistoryRow>)
        ensures
            r is Some <==> 1 <= id <= self@.transfers.len() && touches(self@, self@.transfers[id - 1], user),
            r matches Some(row) ==> {
                let b = self@;
                let t = b.transfers[id - 1];
                let own = if row.outgoing { t.from_account_id } else { t.to_account_id };
                &&& row.id == t.id
                &&& row.amount == t.amount
                &&& row.status == t.status
                &&& opt_text(row.reason) == shown_reason(t)
                &&& opt_text(row.note) == t.note
                &&& row.created_at == t.created_at
                &&& row.outgoing == owns(b, user, t.from_account_id)
                &&& row.counterparty_account_id == if row.outgoing { t.to_account_id } else { t.from_account_id }
                &&& row.own_account_id == own
                &&& row.own_number == number_of(b, own)
                &&& row.counterparty_number == number_of(b, row.counterparty_account_id)
                &&& row.counterparty_owner == owner_of(b, row.counterparty_account_id)
            },
    {
        if !(1 <= id && (id as u64) <= (self.transfers.len() as u64)) {
            return None;
        }
        let t = &self.transfers[(id - 1) as usize];
        assert(self@.transfers[id - 1] == t@);
        let from = self.account(t.from_account_id);
        let to = self.account(t.to_account_id);
        let outgoing = match from {
            Some(a) => a.owner == user,
            None => false,
        };
        let incoming = match to {
            Some(a) => a.owner == user,
            None => false,
        };
        if !outgoing && !incoming {
            return None;
        }
        let (own, cp) = if outgoing { (from, to) } else { (to, from) };
        let own_id = if outgoing { t.from_account_id } else { t.to_account_id };
        let cp_id = if outgoing { t.to_account_id } else { t.from_account_id };
        let reason = match &t.reason {
            Some(x) => Some(x.clone()),
            None => if t.status == TransferStatus::Rejected || t.status == TransferStatus::Failed {
                Some("Please contact an administrator.".to_owned())
            } else {
                None
            },
        };
        Some(
            HistoryRow {
                id: t.id,
                amount: t.amount,
                status: t.status,
                reason,
                note: copy_text(&t.note),
                created_at: t.created_at,
                outgoing,
                own_account_id: own_id,
                own_number: match own {
                    Some(a) => Some(a.number),
                    None => None,
                },
                counterparty_account_id: cp_id,
                counterparty_number: match cp {
                    Some(a) => Some(a.number),
                    None => None,
                },
                counterparty_owner: match cp {
                    Some(a) => Some(a.owner),
                    None => None,
                },
            },
        )
    }

    /// The ids of `user`'s two hundred newest transfers, from or to their
    /// accounts.
    pub fn history(&self, user: i64) -> (r: Vec<i64>)
        ensures
            r@ == history_spec(self@, user),
    {
        let ghost b = self@;
        let ghost full = history_upto(b, user, b.transfers.len() as int);
        let n = self.transfers.len();
        let mut out: Vec<i64> = Vec::new();
        let mut i: usize = n;
        while i > 0 && out.len() < 200
            invariant
                b == self@,
                n == b.transfers.len(),
                full == history_upto(b, user, n as int),
                i <= n,
                out@.len() <= 200,
                out@ + history_upto(b, user, i as int) == full,
            decreases i,
        {
            let t = &self.transfers[i - 1];
            assert(b.transfers[i - 1] == t@);
            let from_mine = match self.account(t.from_account_id) {
                Some(a) => a.owner == user,
                None => false,
            };
            let to_mine = match self.account(t.to_account_id) {
                Some(a) => a.owner == user,
                None => false,
            };
            if from_mine || to_mine {
                let ghost before = out@;
                out.push(t.id);
                proof {
                    assert(before.push(t.id) + history_upto(b, user, i - 1) =~= before + history_upto(b, user, i as int));
                }
            }
            i = i - 1;
        }
        proof {
            if i == 0 {
                assert(out@ =~= full);
            } else {
                assert(full.subrange(0, 200) =~= out@);
            }
        }
        out
    }

    /// Transfer `id`, for the owner of its source account only; anyone else
    /// is told it does not exist.
    pub fn transfer_for_owner(&self, actor: i64, id: i64) -> (r: Result<TransferRec, AppError>)
        ensures
            ({
                let b = self@;
                let visible = 1 <= id <= b.transfers.len() && (match account_at(b, b.transfers[id - 1].from_account_id as int) {
                    Some(a) => a.owner == actor,
                    None => false,
                });
                &&& visible ==> (r matches Ok(t) && t@ == b.transfers[id - 1])
                &&& !visible ==> (r matches Err(e) && e@ == (ErrorKind::NotFound, "transfer "@ + int_text(id as int) + " not found"@))
            }),
    {
        if 1 <= id && (id as u64) <= (self.transfers.len() as u64) {
            let t = &self.transfers[(id - 1) as usize];
            assert(self@.transfers[id - 1] == t@);
            let mine = match self.account(t.from_account_id) {
                Some(a) => a.owner == actor,
                None => false,
            };
            if mine {
                return Ok(t.duplicate());
            }
        }
        let mut m = "transfer ".to_owned();
        m.append(i64_text(id).as_str());
        m.append(" not found");
        Err(AppError::NotFound(m))
    }

    /// The ids of the transfers on hold, oldest first: the staff review queue.
    pub fn held_transfers(&self) -> (r: Vec<i64>)
        ensures
            r@ == held_spec(self@.transfers),
    {
        let ghost ts = self@.transfers;
        let n = self.transfers.len();
        let mut out: Vec<i64> = Vec::new();
        let mut i: usize = 0;
        while i < n
            invariant
                ts == self@.transfers,
                n == ts.len(),
                i <= n,
                out@ == held_spec(ts.subrange(0, i as int)),
            decreases n - i,
        {
            let t = &self.transfers[i];
            proof {
                assert(ts.subrange(0, i + 1).drop_last() =~= ts.subrange(0, i as int));
                assert(ts.subrange(0, i + 1).last() == t@);
            }
            if t.status == TransferStatus::OnHold {
                out.push(t.id);
            }
            i = i + 1;
        }
        proof {
            assert(ts.subrange(0, n as int) =~= ts);
        }
        out
    }

    /// The loans of `user` (when `pending_only` is false) or the
    /// applications awaiting a decision (when it is true), oldest first.
    fn select_loans(&self, user: i64, pending_only: bool) -> (r: Vec<LoanRec>)
        ensures
            !pending_only ==> r@ == loans_where(self@.loans, borrowed_by(user)),
            pending_only ==> r@ == loans_where(self@.loans, awaiting_decision()),
    {
        let ghost ls = self@.loans;
        let ghost keep = if pending_only {
            awaiting_decision()
        } else {
            borrowed_by(user)
        };
        let m = self.loans.len();
        let mut out: Vec<LoanRec> = Vec::new();
        let mut j: usize = 0;
        while j < m
            invariant
                ls == self@.loans,
                m == ls.len(),
                j <= m,
                keep == (if pending_only {
                    awaiting_decision()
                } else {
                    borrowed_by(user)
                }),
                out@ == loans_where(ls.subrange(0, j as int), keep),
            decreases m - j,
        {
            let l = self.loans[j];
            assert(l == ls[j as int]);
            proof {
                assert(ls.subrange(0, j + 1).drop_last() =~= ls.subrange(0, j as int));
            }
            let take = if pending_only {
                l.status == LoanStatus::Pending
            } else {
                l.user_id == user
            };
            if take {
                out.push(l);
            }
            j = j + 1;
        }
        proof {
            assert(ls.subrange(0, m as int) =~= ls);
        }
        out
    }

    /// `user`'s loans, oldest first.
    pub fn loans_of(&self, user: i64) -> (r: Vec<LoanRec>)
        ensures
            r@ == loans_where(self@.loans, borrowed_by(user)),
    {
        self.select_loans(user, false)
    }

    /// The loan applications awaiting a decision, oldest first.
    pub fn pending_applications(&self) -> (r: Vec<LoanRec>)
        ensures
            r@ == loans_where(self@.loans, awaiting_decision()),
    {
        self.select_loans(0, true)
    }
}

/// No two accounts share a number, and every number has ten digits.
pub proof fn law_account_numbers_are_unique(b: Books, i: int, j: int)
    requires
        books_ok(b),
        0 <= i < b.accounts.len(),
        0 <= j < b.accounts.len(),
        i != j,
    ensures
        b.accounts[i].number != b.accounts[j].number,
        1_000_000_000 <= b.accounts[i].number <= 9_999_999_999,
{
    if i < j {
        assert(b.accounts[i].number != b.accounts[j].number);
    } else {
        assert(b.accounts[j].number != b.accounts[i].number);
    }
}

/// Three or more overdraft attempts within a day freeze an active
/// account; fewer change nothing.
pub proof fn law_third_overdraft_in_a_day_freezes(b: Books, account_id: i64, now: int)
    requires
        books_ok(b),
        account_at(b, account_id as int) matches Some(a) && a.status == AccountStatus::Active,
    ensures
        sum_by(b.transfers, overdraft_term(account_id, now - DAY_MICROS)) >= OVERDRAFT_FREEZE_ATTEMPTS
            ==> (account_at(freeze_check_spec(b, account_id, now), account_id as int) matches Some(a2)
            && a2.status == AccountStatus::Frozen && a2.balance == b.accounts[account_id - 1].balance),
        sum_by(b.transfers, overdraft_term(account_id, now - DAY_MICROS)) < OVERDRAFT_FREEZE_ATTEMPTS
            ==> freeze_check_spec(b, account_id, now) == b,
{
}

/// An attempt to send more than the balance is refused before anything
/// posts, and is no fraud signal: a small, slow transfer rejected for
/// insufficient funds is not flagged.
pub proof fn law_overdraft_rejection_is_not_flagged(ts: Seq<TransferView>, t: TransferView)
    requires
        t.status == TransferStatus::Rejected,
        t.reason matches Some(r) && is_overdraft_reason_spec(r),
        t.amount < LARGE_TRANSFER_CENTS,
        velocity_count(ts, t.from_account_id, t.created_at as int) < 4,
    ensures
        flag_of(ts, t) is None,
{
}

impl Ledger {
    /// The number of accounts opened.
    pub fn account_count(&self) -> (n: usize)
        ensures
            n == self@.accounts.len(),
    {
        self.accounts.len()
    }

    /// The number of loans applied for.
    pub fn loan_count(&self) -> (n: usize)
        ensures
            n == self@.loans.len(),
    {
        self.loans.len()
    }

    /// A copy of transfer `id`, if any.
    pub fn transfer(&self, id: i64) -> (r: Option<TransferRec>)
        ensures
            r is Some <==> 1 <= id <= self@.transfers.len(),
            r matches Some(t) ==> t@ == self@.transfers[id - 1],
    {
        if 1 <= id && (id as u64) <= (self.transfers.len() as u64) {
            let t = &self.transfers[(id - 1) as usize];
            assert(self@.transfers[id - 1] == t@);
            Some(t.duplicate())
        } else {
            None
        }
    }
}

/// A pending loan application lapses after seven days, in microseconds.
pub const LOAN_APPLICATION_TTL_MICROS: i64 = 604_800_000_000;

/// Whether loan `n` is an application that has lapsed at `now`.
pub open spec fn lapsed(n: LoanRec, now: int) -> bool {
    n.status == LoanStatus::Pending && n.created_at <= now - LOAN_APPLICATION_TTL_MICROS
}

/// The loans after lapsed applications are closed as rejected.
pub open spec fn expire_spec(ls: Seq<LoanRec>, now: int) -> Seq<LoanRec> {
    Seq::new(
        ls.len(),
        |i: int|
            if lapsed(ls[i], now) {
                LoanRec { status: LoanStatus::Rejected, ..ls[i] }
            } else {
                ls[i]
            },
    )
}

impl Ledger {
    /// Closes every pending application older than seven days as rejected.
    pub fn expire_applications(&mut self, now: i64)
        requires
            books_ok(old(self)@),
        ensures
            books_ok(final(self)@),
            final(self)@ == (Books { loans: expire_spec(old(self)@.loans, now as int), ..old(self)@ }),
    {
        let ghost b = self@;
        let m = self.loans.len();
        let mut j: usize = 0;
        while j < m
            invariant
                m == b.loans.len(),
                j <= m,
                self@.loans.len() == m,
                self@.accounts == b.accounts,
                self@.transfers == b.transfers,
                self@.limit_changes == b.limit_changes,
                self@.adjustments == b.adjustments,
                self@.repayments == b.repayments,
                books_ok(b),
                forall|k: int| 0 <= k < j ==> self@.loans[k] == expire_spec(b.loans, now as int)[k],
                forall|k: int| j <= k < m ==> self@.loans[k] == b.loans[k],
            decreases m - j,
        {
            let n = self.loans[j];
            assert(n == self@.loans[j as int]);
            if n.status == LoanStatus::Pending && (n.created_at as i128) <= (now as i128) - (LOAN_APPLICATION_TTL_MICROS as i128) {
                let ghost before = self@;
                self.loans.set(j, LoanRec { status: LoanStatus::Rejected, ..n });
                proof {
                    assert(self@.transfers =~= before.transfers);
                }
            }
            j = j + 1;
        }
        proof {
            assert(self@.loans =~= expire_spec(b.loans, now as int));
            assert(self@ =~= Books { loans: expire_spec(b.loans, now as int), ..b });
            let b2 = self@;
            assert forall|k: int| 0 <= k < b2.loans.len() implies {
                let x = #[trigger] b2.loans[k];
                &&& x.id == k + 1
                &&& loan_ok(x)
            } by {
                assert(b.loans[k].id == k + 1 && loan_ok(b.loans[k]));
            }
        }
    }
}

/// After expiry no application older than seven days is still pending,
/// no money moves, and no decided loan changes.
pub proof fn law_stale_applications_lapse(ls: Seq<LoanRec>, now: int, k: int)
    requires
        0 <= k < ls.len(),
    ensures
        !lapsed(expire_spec(ls, now)[k], now),
        ls[k].status != LoanStatus::Pending ==> expire_spec(ls, now)[k] == ls[k],
        expire_spec(ls, now)[k].paid == ls[k].paid,
{
}

/// The parked adjustments still waiting for their second approval, oldest
/// first.
pub open spec fn open_adjustments_spec(qs: Seq<AdjustmentRec>) -> Seq<AdjustmentRec>
    decreases qs.len(),
{
    if qs.len() == 0 {
        Seq::empty()
    } else {
        let p = open_adjustments_spec(qs.drop_last());
        if qs.last().approved_by is None {
            p.push(qs.last())
        } else {
            p
        }
    }
}

impl Ledger {
    /// The parked adjustments still waiting for their second approval.
    pub fn open_adjustments(&self) -> (r: Vec<AdjustmentRec>)
        ensures
            r@ == open_adjustments_spec(self@.adjustments),
    {
        let ghost qs = self@.adjustments;
        let n = self.adjustments.len();
        let mut out: Vec<AdjustmentRec> = Vec::new();
        let mut i: usize = 0;
        while i < n
            invariant
                qs == self@.adjustments,
                n == qs.len(),
                i <= n,
                out@ == open_adjustments_spec(qs.subrange(0, i as int)),
            decreases n - i,
        {
            proof {
                assert(qs.subrange(0, i + 1).drop_last() =~= qs.subrange(0, i as int));
            }
            let q = self.adjustments[i];
            if q.approved_by.is_none() {
                out.push(q);
            }
            i = i + 1;
        }
        proof {
            assert(qs.subrange(0, n as int) =~= qs);
        }
        out
    }
}

} // verus!
