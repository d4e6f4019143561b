//! The transfer engine's rules.
//!
//! A transfer is created `Pending` with a one-time code, then confirmed.
//! Confirmation runs in two phases over what the engine read under row
//! locks: checks on the transfer row itself (state, age, ownership, the
//! code), then a settlement over both accounts (states, funds, funds already
//! reserved by held transfers, fraud rules). Each phase decides one write:
//! nothing, a counted code attempt, a rejection with a reason, a hold for
//! staff review, or the money move.

use vstd::prelude::*;
use crate::errors::{AppError, ErrorKind};
use crate::models::{AccountStatus, TransferStatus};
use crate::money::{dollars_seq, dollars_text, money_ok, MAX_CENTS};
use crate::text::{ascii_lower, digits, int_text, push_digits, starts_with, starts_with_seq};

verus! {

/// A pending transfer must be confirmed within ten minutes of its creation.
pub const CONFIRM_WINDOW_MICROS: i64 = 600_000_000;
/// The third wrong code rejects the transfer.
pub const MAX_CODE_ATTEMPTS: i32 = 3;
/// Transfers of $10,000 or more are held for review.
pub const LARGE_TRANSFER_CENTS: i64 = 1_000_000;
/// Structuring: a balance of at least $5,000 ...
pub const STRUCTURING_BALANCE_CENTS: i64 = 500_000;
/// ... emptied to within $49 by a transfer under the limit.
pub const STRUCTURING_RESIDUE_CENTS: i64 = 4_900;
/// Draining more than half of a balance above $5,000 is held for review.
pub const DRAIN_BALANCE_CENTS: i64 = 500_000;
/// Three completed or held transfers in the past hour make the next one the
/// fourth: held for velocity.
pub const VELOCITY_PRIOR_TRANSFERS: i64 = 3;
/// Three overdraft attempts within a day freeze the account.
pub const OVERDRAFT_FREEZE_ATTEMPTS: i64 = 3;

/// How a typed code compared with the hash stored on the transfer.
#[derive(Clone, Copy, Debug, PartialEq, Eq, Structural)]
pub enum CodeCheck {
    /// The transfer holds no hash.
    NoHash,
    /// The stored hash could not be parsed.
    BadHash,
    Mismatch,
    Match,
}

/// The transfer row, as read under its lock.
#[derive(Clone, Copy, Debug, PartialEq, Eq, Structural)]
pub struct PendingTransfer {
    pub id: i64,
    pub from_account_id: i64,
    pub to_account_id: i64,
    pub amount: i64,
    pub status: TransferStatus,
    pub otp_attempts: i32,
    /// Creation time, in microseconds.
    pub created_at: i64,
}

/// An account row, as read under its lock.
#[derive(Clone, Copy, Debug, PartialEq, Eq, Structural)]
pub struct LockedAccount {
    pub id: i64,
    pub status: AccountStatus,
    pub balance: i64,
    pub transfer_limit: i64,
}

/// Why a transfer was rejected at confirmation.
#[derive(Clone, Copy, Debug, PartialEq, Eq, Structural)]
pub enum RejectCause {
    Expired,
    CodeLockout,
    SourceInactive,
    DestinationInactive,
    InsufficientFunds,
    FundsReserved,
}

/// Which fraud rule held a transfer.
#[derive(Clone, Copy, Debug, PartialEq, Eq, Structural)]
pub enum HoldRule {
    Large,
    Structuring,
    Drain,
    Velocity,
}

/// The one write a confirmation phase decides.
#[derive(Debug)]
pub enum Step {
    /// Write nothing and answer with the error.
    Refuse(AppError),
    /// Record the new count of wrong codes and answer with the error.
    CountAttempt { attempts: i32, error: AppError },
    /// Mark the transfer rejected with `reason` and answer with the error.
    Reject { cause: RejectCause, reason: String, error: AppError },
    /// Park the transfer on hold with `reason`; no money moves.
    Hold { rule: HoldRule, reason: String },
    /// Debit and credit: the two accounts' new balances.
    Complete { from_balance: i64, to_balance: i64 },
}

/// The view of a [`Step`].
pub enum StepView {
    Refuse((ErrorKind, Seq<char>)),
    CountAttempt(i32, (ErrorKind, Seq<char>)),
    Reject(RejectCause, Seq<char>, (ErrorKind, Seq<char>)),
    Hold(HoldRule, Seq<char>),
    Complete(i64, i64),
}

impl View for Step {
    type V = StepView;

    open spec fn view(&self) -> StepView {
        match self {
            Step::Refuse(e) => StepView::Refuse(e@),
            Step::CountAttempt { attempts, error } => StepView::CountAttempt(*attempts, error@),
            Step::Reject { cause, reason, error } => StepView::Reject(*cause, reason@, error@),
            Step::Hold { rule, reason } => StepView::Hold(*rule, reason@),
            Step::Complete { from_balance, to_balance } => StepView::Complete(
                *from_balance,
                *to_balance,
            ),
        }
    }
}

// ── Messages ─────────────────────────────────────────────────────────

/// The reason recorded when a transfer asks for more than the balance.
pub open spec fn insufficient_reason(balance: int, amount: int) -> Seq<char> {
    "insufficient funds: balance "@ + dollars_seq(balance) + " is less than "@ + dollars_seq(amount)
}

/// The error answered when the locked balance is short at confirmation.
pub open spec fn insufficient_short(balance: int, amount: int) -> Seq<char> {
    "insufficient funds: balance "@ + dollars_seq(balance) + " < "@ + dollars_seq(amount)
}

/// The reason recorded when held transfers reserve the funds.
pub open spec fn reserved_reason(held: int, balance: int) -> Seq<char> {
    "insufficient available funds: "@ + dollars_seq(held) + " of the "@ + dollars_seq(balance)
        + " balance is reserved by transfers held for review"@
}

/// The text of a fraud rule.
pub open spec fn hold_reason_seq(rule: HoldRule) -> Seq<char> {
    match rule {
        HoldRule::Large => "large transfer (>= $10,000)"@,
        HoldRule::Structuring => "possible structuring: empties the account to within $49 while staying under the limit"@,
        HoldRule::Drain => "drains more than half of the account balance"@,
        HoldRule::Velocity => "high velocity: 4+ transfers from this account within 1 hour"@,
    }
}

/// The error for a wrong code with attempts left.
pub open spec fn invalid_code_msg(attempts: int) -> Seq<char> {
    "invalid confirmation code (attempt "@ + int_text(attempts) + " of 3)"@
}

/// Whether a recorded rejection reason is an overdraft attempt (the reasons
/// that count toward the automatic freeze).
pub open spec fn is_overdraft_reason_spec(reason: Seq<char>) -> bool {
    starts_with_seq(reason, "insufficient funds"@)
}

/// Builds [`insufficient_reason`].
pub fn insufficient_reason_text(balance: i64, amount: i64) -> (s: String)
    ensures
        s@ == insufficient_reason(balance as int, amount as int),
{
    let mut s = "insufficient funds: balance ".to_owned();
    s.append(dollars_text(balance).as_str());
    s.append(" is less than ");
    s.append(dollars_text(amount).as_str());
    s
}

fn insufficient_short_text(balance: i64, amount: i64) -> (s: String)
    ensures
        s@ == insufficient_short(balance as int, amount as int),
{
    let mut s = "insufficient funds: balance ".to_owned();
    s.append(dollars_text(balance).as_str());
    s.append(" < ");
    s.append(dollars_text(amount).as_str());
    s
}

fn reserved_reason_text(held: i64, balance: i64) -> (s: String)
    ensures
        s@ == reserved_reason(held as int, balance as int),
{
    let mut s = "insufficient available funds: ".to_owned();
    s.append(dollars_text(held).as_str());
    s.append(" of the ");
    s.append(dollars_text(balance).as_str());
    s.append(" balance is reserved by transfers held for review");
    s
}

/// The text of a fraud rule.
pub fn hold_reason_text(rule: HoldRule) -> (s: String)
    ensures
        s@ == hold_reason_seq(rule),
{
    match rule {
        HoldRule::Large => "large transfer (>= $10,000)".to_owned(),
        HoldRule::Structuring => "possible structuring: empties the account to within $49 while staying under the limit".to_owned(),
        HoldRule::Drain => "drains more than half of the account balance".to_owned(),
        HoldRule::Velocity => "high velocity: 4+ transfers from this account within 1 hour".to_owned(),
    }
}

/// Whether a recorded rejection reason counts as an overdraft attempt, as
/// `status_reason LIKE 'insufficient funds%'` decides.
pub fn is_overdraft_reason(reason: &str) -> (b: bool)
    ensures
        b == is_overdraft_reason_spec(reason@),
{
    starts_with(reason, "insufficient funds")
}

/// Both texts an insufficient-funds rejection can record are overdraft reasons.
pub proof fn law_insufficient_funds_counts_as_overdraft(balance: int, amount: int)
    ensures
        is_overdraft_reason_spec(insufficient_reason(balance, amount)),
{
    let r = insufficient_reason(balance, amount);
    let p = "insufficient funds"@;
    reveal_strlit("insufficient funds");
    reveal_strlit("insufficient funds: balance ");
    assert(r.subrange(0, p.len() as int) =~= p);
}

// ── Creation ─────────────────────────────────────────────────────────

/// The cheap checks on a transfer request, before anything is read.
pub open spec fn request_check_spec(amount: int, from_id: int, to_id: int) -> Option<(ErrorKind, Seq<char>)> {
    if amount <= 0 {
        Some((ErrorKind::BadRequest, "amount must be greater than zero"@))
    } else if from_id == to_id {
        Some((ErrorKind::BadRequest, "cannot transfer to the same account"@))
    } else {
        None
    }
}

/// Refuses a non-positive amount or a transfer to the same account.
pub fn check_request(amount: i64, from_account_id: i64, to_account_id: i64) -> (r: Result<(), AppError>)
    ensures
        r is Ok <==> request_check_spec(amount as int, from_account_id as int, to_account_id as int) is None,
        r matches Err(e) ==> Some(e@) == request_check_spec(amount as int, from_account_id as int, to_account_id as int),
{
    if amount <= 0 {
        Err(AppError::BadRequest("amount must be greater than zero".to_owned()))
    } else if from_account_id == to_account_id {
        Err(AppError::BadRequest("cannot transfer to the same account".to_owned()))
    } else {
        Ok(())
    }
}

/// The check on the accounts' owners: both accounts must exist and belong
/// to different users.
pub open spec fn parties_check_spec(owners: Option<(i64, i64)>) -> Option<(ErrorKind, Seq<char>)> {
    match owners {
        None => Some((ErrorKind::NotFound, "one of the accounts does not exist"@)),
        Some((f, t)) => if f == t {
            Some((ErrorKind::BadRequest, "you cannot transfer to yourself - the recipient account also belongs to you"@))
        } else {
            None
        },
    }
}

/// Refuses missing accounts and transfers between one user's own accounts.
pub fn check_parties(owners: Option<(i64, i64)>) -> (r: Result<(), AppError>)
    ensures
        r is Ok <==> parties_check_spec(owners) is None,
        r matches Err(e) ==> Some(e@) == parties_check_spec(owners),
{
    match owners {
        None => Err(AppError::NotFound("one of the accounts does not exist".to_owned())),
        Some((f, t)) => if f == t {
            Err(AppError::BadRequest("you cannot transfer to yourself - the recipient account also belongs to you".to_owned()))
        } else {
            Ok(())
        },
    }
}

/// The outcome of the funds checks at creation.
#[derive(Debug)]
pub enum FundsCheck {
    /// More than the balance: record a rejected transfer with `reason`,
    /// run the overdraft-freeze check, and answer with the error.
    Overdraft { reason: String, error: AppError },
    /// Refused without recording anything.
    Refuse(AppError),
    /// The transfer may be created.
    Proceed,
}

/// The view of a [`FundsCheck`].
pub enum FundsCheckView {
    Overdraft(Seq<char>, (ErrorKind, Seq<char>)),
    Refuse((ErrorKind, Seq<char>)),
    Proceed,
}

impl View for FundsCheck {
    type V = FundsCheckView;

    open spec fn view(&self) -> FundsCheckView {
        match self {
            FundsCheck::Overdraft { reason, error } => FundsCheckView::Overdraft(reason@, error@),
            FundsCheck::Refuse(e) => FundsCheckView::Refuse(e@),
            FundsCheck::Proceed => FundsCheckView::Proceed,
        }
    }
}

/// The funds checks at creation: the balance first (an overdraft attempt
/// is recorded), then the balance not reserved by pending or held
/// transfers, then the account's per-transfer limit.
pub open spec fn funds_check_spec(amount: int, balance: int, reserved: int, limit: int) -> FundsCheckView {
    if amount > balance {
        FundsCheckView::Overdraft(
            insufficient_reason(balance, amount),
            (ErrorKind::BadRequest, insufficient_reason(balance, amount)),
        )
    } else if amount > balance - reserved {
        FundsCheckView::Refuse(
            (ErrorKind::BadRequest, "amount exceeds your available balance of "@ + dollars_seq(
                balance - reserved,
            ) + " ("@ + dollars_seq(reserved) + " is reserved by pending or on-hold transfers)"@),
        )
    } else if amount > limit {
        FundsCheckView::Refuse(
            (ErrorKind::BadRequest, "amount exceeds this account's per-transfer limit of "@
                + dollars_seq(limit) + " - request a limit increase from the account page"@),
        )
    } else {
        FundsCheckView::Proceed
    }
}

/// Checks a new transfer's amount against the source account's balance,
/// the part of it reserved by outstanding transfers, and its limit.
pub fn check_funds(amount: i64, balance: i64, reserved: i64, limit: i64) -> (r: FundsCheck)
    requires
        money_ok(amount as int),
        money_ok(balance as int),
        money_ok(reserved as int),
        money_ok(limit as int),
    ensures
        r@ == funds_check_spec(amount as int, balance as int, reserved as int, limit as int),
{
    if amount > balance {
        let reason = insufficient_reason_text(balance, amount);
        let msg = insufficient_reason_text(balance, amount);
        FundsCheck::Overdraft { reason, error: AppError::BadRequest(msg) }
    } else if amount > balance - reserved {
        let mut s = "amount exceeds your available balance of ".to_owned();
        s.append(dollars_text(balance - reserved).as_str());
        s.append(" (");
        s.append(dollars_text(reserved).as_str());
        s.append(" is reserved by pending or on-hold transfers)");
        FundsCheck::Refuse(AppError::BadRequest(s))
    } else if amount > limit {
        let mut s = "amount exceeds this account's per-transfer limit of ".to_owned();
        s.append(dollars_text(limit).as_str());
        s.append(" - request a limit increase from the account page");
        FundsCheck::Refuse(AppError::BadRequest(s))
    } else {
        FundsCheck::Proceed
    }
}

/// Whether the count of overdraft attempts within a day freezes the account.
pub open spec fn freeze_due_spec(attempts: int) -> bool {
    attempts >= OVERDRAFT_FREEZE_ATTEMPTS
}

/// Whether `attempts` overdraft attempts within 24 hours freeze the account.
pub fn overdraft_freeze_due(attempts: i64) -> (b: bool)
    ensures
        b == freeze_due_spec(attempts as int),
{
    attempts >= OVERDRAFT_FREEZE_ATTEMPTS
}

// ── Confirmation, phase one: the transfer row ───────────────────────

/// The checks on the locked transfer row. `None` lets confirmation go on
/// to the accounts.
pub open spec fn gate_spec(t: PendingTransfer, now: int, actor: int, owner: Option<i64>, code: CodeCheck) -> Option<StepView> {
    if t.status != TransferStatus::Pending {
        Some(StepView::Refuse((ErrorKind::Conflict, "transfer is already "@ + ascii_lower(t.status.spec_label()))))
    } else if now - t.created_at > CONFIRM_WINDOW_MICROS {
        Some(StepView::Reject(
            RejectCause::Expired,
            "confirmation window expired"@,
            (ErrorKind::Conflict, "the confirmation window has expired - please start the transfer again"@),
        ))
    } else if owner != Some(actor as i64) {
        Some(StepView::Refuse((ErrorKind::Forbidden, Seq::empty())))
    } else {
        match code {
            CodeCheck::NoHash => Some(StepView::Refuse((ErrorKind::Internal, "pending transfer missing OTP"@))),
            CodeCheck::BadHash => Some(StepView::Refuse((ErrorKind::Internal, "malformed OTP hash"@))),
            CodeCheck::Mismatch => if t.otp_attempts + 1 >= MAX_CODE_ATTEMPTS {
                Some(StepView::Reject(
                    RejectCause::CodeLockout,
                    "too many invalid confirmation codes"@,
                    (ErrorKind::BadRequest, "too many invalid codes - the transfer has been rejected"@),
                ))
            } else {
                Some(StepView::CountAttempt(
                    (t.otp_attempts + 1) as i32,
                    (ErrorKind::BadRequest, invalid_code_msg(t.otp_attempts + 1)),
                ))
            },
            CodeCheck::Match => None,
        }
    }
}

/// Phase one of a confirmation: only a pending transfer inside its window,
/// confirmed by the owner of its source account with the right code, goes
/// on. A stranger's guesses never count against the transfer, since the
/// owner is checked before the code.
pub fn confirm_gate(t: &PendingTransfer, now: i64, actor: i64, owner: Option<i64>, code: CodeCheck) -> (r: Option<Step>)
    requires
        t.otp_attempts >= 0,
    ensures
        r is None <==> gate_spec(*t, now as int, actor as int, owner, code) is None,
        r matches Some(s) ==> gate_spec(*t, now as int, actor as int, owner, code) == Some(s@),
{
    if t.status != TransferStatus::Pending {
        let mut s = "transfer is already ".to_owned();
        s.append(t.status.lower_label().as_str());
        return Some(Step::Refuse(AppError::Conflict(s)));
    }
    if (now as i128) - (t.created_at as i128) > CONFIRM_WINDOW_MICROS as i128 {
        return Some(Step::Reject {
            cause: RejectCause::Expired,
            reason: "confirmation window expired".to_owned(),
            error: AppError::Conflict("the confirmation window has expired - please start the transfer again".to_owned()),
        });
    }
    match owner {
        Some(o) if o == actor => {},
        _ => {
            return Some(Step::Refuse(AppError::Forbidden));
        },
    }
    match code {
        CodeCheck::NoHash => Some(Step::Refuse(AppError::Internal("pending transfer missing OTP".to_owned()))),
        CodeCheck::BadHash => Some(Step::Refuse(AppError::Internal("malformed OTP hash".to_owned()))),
        CodeCheck::Mismatch => {
            if t.otp_attempts >= MAX_CODE_ATTEMPTS - 1 {
                Some(Step::Reject {
                    cause: RejectCause::CodeLockout,
                    reason: "too many invalid confirmation codes".to_owned(),
                    error: AppError::BadRequest("too many invalid codes - the transfer has been rejected".to_owned()),
                })
            } else {
                let attempts = t.otp_attempts + 1;
                let mut s = "invalid confirmation code (attempt ".to_owned();
                push_digits(&mut s, attempts as u64);
                s.append(" of 3)");
                proof {
                    assert(int_text(attempts as int) == digits(attempts as nat));
                }
                Some(Step::CountAttempt { attempts, error: AppError::BadRequest(s) })
            }
        },
        CodeCheck::Match => None,
    }
}

// ── Confirmation, phase two: the accounts ───────────────────────────

/// The fraud rules, in order: a large amount, structuring, draining more
/// than half of a large balance, then velocity.
pub open spec fn hold_rule_spec(amount: int, balance: int, limit: int, recent: int) -> Option<HoldRule> {
    if amount >= LARGE_TRANSFER_CENTS {
        Some(HoldRule::Large)
    } else if balance >= STRUCTURING_BALANCE_CENTS && amount < limit && balance - amount
        <= STRUCTURING_RESIDUE_CENTS {
        Some(HoldRule::Structuring)
    } else if balance > DRAIN_BALANCE_CENTS && amount * 2 > balance {
        Some(HoldRule::Drain)
    } else if recent >= VELOCITY_PRIOR_TRANSFERS {
        Some(HoldRule::Velocity)
    } else {
        None
    }
}

/// Which fraud rule, if any, holds a payable transfer of `amount` from an
/// account with `balance` and `limit` that made `recent` completed or held
/// transfers in the past hour.
pub fn hold_rule(amount: i64, balance: i64, limit: i64, recent: i64) -> (r: Option<HoldRule>)
    requires
        money_ok(amount as int),
        money_ok(balance as int),
    ensures
        r == hold_rule_spec(amount as int, balance as int, limit as int, recent as int),
{
    if amount >= LARGE_TRANSFER_CENTS {
        Some(HoldRule::Large)
    } else if balance >= STRUCTURING_BALANCE_CENTS && amount < limit && balance - amount
        <= STRUCTURING_RESIDUE_CENTS {
        Some(HoldRule::Structuring)
    } else if balance > DRAIN_BALANCE_CENTS && amount * 2 > balance {
        Some(HoldRule::Drain)
    } else if recent >= VELOCITY_PRIOR_TRANSFERS {
        Some(HoldRule::Velocity)
    } else {
        None
    }
}

/// The settlement over the two locked accounts.
pub open spec fn settle_spec(
    t: PendingTransfer,
    from: Option<LockedAccount>,
    to: Option<LockedAccount>,
    held_elsewhere: int,
    recent: int,
) -> StepView {
    match (from, to) {
        (Some(f), Some(d)) => if f.status != AccountStatus::Active {
            let r = "source account is "@ + ascii_lower(f.status.spec_label());
            StepView::Reject(RejectCause::SourceInactive, r, (ErrorKind::Conflict, r))
        } else if d.status != AccountStatus::Active {
            let r = "destination account is "@ + ascii_lower(d.status.spec_label());
            StepView::Reject(RejectCause::DestinationInactive, r, (ErrorKind::Conflict, r))
        } else if f.balance < t.amount {
            StepView::Reject(
                RejectCause::InsufficientFunds,
                insufficient_reason(f.balance as int, t.amount as int),
                (ErrorKind::Conflict, insufficient_short(f.balance as int, t.amount as int)),
            )
        } else if f.balance - held_elsewhere < t.amount {
            let r = reserved_reason(held_elsewhere, f.balance as int);
            StepView::Reject(RejectCause::FundsReserved, r, (ErrorKind::Conflict, r))
        } else {
            match hold_rule_spec(t.amount as int, f.balance as int, f.transfer_limit as int, recent) {
                Some(rule) => StepView::Hold(rule, hold_reason_seq(rule)),
                None => if d.balance + t.amount > MAX_CENTS {
                    StepView::Refuse((ErrorKind::Internal, "numeric field overflow"@))
                } else {
                    StepView::Complete((f.balance - t.amount) as i64, (d.balance + t.amount) as i64)
                },
            }
        },
        _ => StepView::Refuse((ErrorKind::Conflict, "one of the accounts no longer exists"@)),
    }
}

/// Phase two of a confirmation, over both accounts locked in ascending id
/// order: both must be active, the source must hold the amount, also after
/// setting aside what other held transfers reserve, and no fraud rule may
/// match; then the money moves.
pub fn confirm_settle(
    t: &PendingTransfer,
    from: Option<LockedAccount>,
    to: Option<LockedAccount>,
    held_elsewhere: i64,
    recent: i64,
) -> (r: Step)
    requires
        t.amount > 0,
        money_ok(t.amount as int),
        money_ok(held_elsewhere as int),
        from matches Some(f) ==> money_ok(f.balance as int),
        to matches Some(d) ==> money_ok(d.balance as int),
    ensures
        r@ == settle_spec(*t, from, to, held_elsewhere as int, recent as int),
{
    match (from, to) {
        (Some(f), Some(d)) => {
            if f.status != AccountStatus::Active {
                let mut r = "source account is ".to_owned();
                r.append(f.status.lower_label().as_str());
                let mut e = "source account is ".to_owned();
                e.append(f.status.lower_label().as_str());
                Step::Reject { cause: RejectCause::SourceInactive, reason: r, error: AppError::Conflict(e) }
            } else if d.status != AccountStatus::Active {
                let mut r = "destination account is ".to_owned();
                r.append(d.status.lower_label().as_str());
                let mut e = "destination account is ".to_owned();
                e.append(d.status.lower_label().as_str());
                Step::Reject { cause: RejectCause::DestinationInactive, reason: r, error: AppError::Conflict(e) }
            } else if f.balance < t.amount {
                Step::Reject {
                    cause: RejectCause::InsufficientFunds,
                    reason: insufficient_reason_text(f.balance, t.amount),
                    error: AppError::Conflict(insufficient_short_text(f.balance, t.amount)),
                }
            } else if f.balance - held_elsewhere < t.amount {
                Step::Reject {
                    cause: RejectCause::FundsReserved,
                    reason: reserved_reason_text(held_elsewhere, f.balance),
                    error: AppError::Conflict(reserved_reason_text(held_elsewhere, f.balance)),
                }
            } else {
                match hold_rule(t.amount, f.balance, f.transfer_limit, recent) {
                    Some(rule) => Step::Hold { rule, reason: hold_reason_text(rule) },
                    None => if d.balance > MAX_CENTS - t.amount {
                        Step::Refuse(AppError::Internal("numeric field overflow".to_owned()))
                    } else {
                        Step::Complete { from_balance: f.balance - t.amount, to_balance: d.balance + t.amount }
                    },
                }
            }
        },
        _ => Step::Refuse(AppError::Conflict("one of the accounts no longer exists".to_owned())),
    }
}

/// A settlement only ever completes with the source able to pay: the debit
/// leaves it non-negative, and the money that leaves the source is the
/// money that reaches the destination.
pub proof fn law_settlement_never_overdraws(
    t: PendingTransfer,
    f: LockedAccount,
    d: LockedAccount,
    held_elsewhere: int,
    recent: int,
)
    requires
        t.amount > 0,
        held_elsewhere >= 0,
        settle_spec(t, Some(f), Some(d), held_elsewhere, recent) is Complete,
    ensures
        ({
            let s = settle_spec(t, Some(f), Some(d), held_elsewhere, recent);
            &&& s->Complete_0 >= 0
            &&& s->Complete_0 == f.balance - t.amount
            &&& s->Complete_1 == d.balance + t.amount
            &&& s->Complete_0 + s->Complete_1 == f.balance + d.balance
            &&& f.status == AccountStatus::Active && d.status == AccountStatus::Active
            &&& s->Complete_0 >= held_elsewhere
        }),
{
}


// ── Staff review of held transfers ──────────────────────────────────

/// The decision on a staff release of a held transfer.
#[derive(Debug)]
pub enum ReleaseStep {
    /// Write nothing and answer with the error.
    Refuse(AppError),
    /// The accounts changed since the hold: reject the transfer with
    /// [`release_failed_reason_spec`], deny the review, answer with the error.
    Fail(AppError),
    /// Move the money and mark the review released.
    Complete { from_balance: i64, to_balance: i64 },
}

/// The view of a [`ReleaseStep`].
pub enum ReleaseStepView {
    Refuse((ErrorKind, Seq<char>)),
    Fail((ErrorKind, Seq<char>)),
    Complete(i64, i64),
}

impl View for ReleaseStep {
    type V = ReleaseStepView;

    open spec fn view(&self) -> ReleaseStepView {
        match self {
            ReleaseStep::Refuse(e) => ReleaseStepView::Refuse(e@),
            ReleaseStep::Fail(e) => ReleaseStepView::Fail(e@),
            ReleaseStep::Complete { from_balance, to_balance } => ReleaseStepView::Complete(
                *from_balance,
                *to_balance,
            ),
        }
    }
}

/// The reason recorded when a release finds the accounts changed.
pub open spec fn release_failed_reason_spec() -> Seq<char> {
    "release failed: account state or funds changed"@
}

/// The text of [`release_failed_reason_spec`].
pub fn release_failed_reason() -> (s: String)
    ensures
        s@ == release_failed_reason_spec(),
{
    "release failed: account state or funds changed".to_owned()
}

/// A staff release: only a held transfer whose customer filed a review
/// request can be released, and only while the source is active and still
/// holds the amount and the destination is active.
pub open spec fn release_spec(
    t: PendingTransfer,
    review_filed: bool,
    from: Option<LockedAccount>,
    to: Option<LockedAccount>,
) -> ReleaseStepView {
    if t.status != TransferStatus::OnHold {
        ReleaseStepView::Refuse((ErrorKind::Conflict, "transfer is not on hold"@))
    } else if !review_filed {
        ReleaseStepView::Refuse((ErrorKind::Conflict, "the customer has not submitted a review request yet"@))
    } else {
        let from_ok = from matches Some(f) && f.status == AccountStatus::Active && f.balance >= t.amount;
        let to_ok = to matches Some(d) && d.status == AccountStatus::Active;
        if !from_ok || !to_ok {
            ReleaseStepView::Fail((ErrorKind::Conflict, "cannot release: the account state or balance changed since the hold"@))
        } else if to.unwrap().balance + t.amount > MAX_CENTS {
            ReleaseStepView::Refuse((ErrorKind::Internal, "numeric field overflow"@))
        } else {
            ReleaseStepView::Complete(
                (from.unwrap().balance - t.amount) as i64,
                (to.unwrap().balance + t.amount) as i64,
            )
        }
    }
}

/// Decides a staff release of a held transfer.
pub fn release_decision(
    t: &PendingTransfer,
    review_filed: bool,
    from: Option<LockedAccount>,
    to: Option<LockedAccount>,
) -> (r: ReleaseStep)
    requires
        t.amount > 0,
        money_ok(t.amount as int),
        from matches Some(f) ==> money_ok(f.balance as int),
        to matches Some(d) ==> money_ok(d.balance as int),
    ensures
        r@ == release_spec(*t, review_filed, from, to),
{
    if t.status != TransferStatus::OnHold {
        return ReleaseStep::Refuse(AppError::Conflict("transfer is not on hold".to_owned()));
    }
    if !review_filed {
        return ReleaseStep::Refuse(
            AppError::Conflict("the customer has not submitted a review request yet".to_owned()),
        );
    }
    match (from, to) {
        (Some(f), Some(d)) => {
            if f.status == AccountStatus::Active && f.balance >= t.amount && d.status
                == AccountStatus::Active {
                if d.balance > MAX_CENTS - t.amount {
                    ReleaseStep::Refuse(AppError::Internal("numeric field overflow".to_owned()))
                } else {
                    ReleaseStep::Complete {
                        from_balance: f.balance - t.amount,
                        to_balance: d.balance + t.amount,
                    }
                }
            } else {
                ReleaseStep::Fail(
                    AppError::Conflict(
                        "cannot release: the account state or balance changed since the hold".to_owned(),
                    ),
                )
            }
        },
        _ => ReleaseStep::Fail(
            AppError::Conflict(
                "cannot release: the account state or balance changed since the hold".to_owned(),
            ),
        ),
    }
}

/// A staff denial applies only to a held transfer.
pub open spec fn deny_spec(status: TransferStatus) -> Option<(ErrorKind, Seq<char>)> {
    if status != TransferStatus::OnHold {
        Some((ErrorKind::Conflict, "transfer is not on hold"@))
    } else {
        None
    }
}

/// Refuses to deny a transfer that is not on hold.
pub fn deny_decision(status: TransferStatus) -> (r: Result<(), AppError>)
    ensures
        r is Ok <==> deny_spec(status) is None,
        r matches Err(e) ==> Some(e@) == deny_spec(status),
{
    if status != TransferStatus::OnHold {
        Err(AppError::Conflict("transfer is not on hold".to_owned()))
    } else {
        Ok(())
    }
}

/// The reason a staff denial records: the staff member's text, trimmed, or a
/// default when it is blank.
pub open spec fn deny_reason_spec(text: Option<Seq<char>>) -> Seq<char> {
    match text {
        Some(t) if crate::text::trimmed(t).len() > 0 => crate::text::trimmed(t),
        _ => "denied after staff review"@,
    }
}

/// The reason to record for a staff denial.
pub fn deny_reason(text: Option<&str>) -> (r: String)
    ensures
        r@ == deny_reason_spec(
            match text {
                Some(t) => Some(t@),
                None => None,
            },
        ),
{
    match text {
        Some(t) => {
            let tt = crate::text::trim(t);
            if tt.unicode_len() > 0 {
                tt.to_owned()
            } else {
                "denied after staff review".to_owned()
            }
        },
        None => "denied after staff review".to_owned(),
    }
}

/// The checks on a customer's review request: purpose and identity number
/// must both be given (not blank), and only a held transfer can be reviewed.
pub open spec fn review_check_spec(purpose: Seq<char>, nric: Seq<char>, status: TransferStatus) -> Option<(ErrorKind, Seq<char>)> {
    if crate::text::trimmed(purpose).len() == 0 || crate::text::trimmed(nric).len() == 0 {
        Some((ErrorKind::BadRequest, "both the purpose and your NRIC are required"@))
    } else if status != TransferStatus::OnHold {
        Some((ErrorKind::Conflict, "this transfer is not on hold"@))
    } else {
        None
    }
}

/// Checks a customer's review request for one of their transfers.
pub fn check_review(purpose: &str, nric: &str, status: TransferStatus) -> (r: Result<(), AppError>)
    ensures
        r is Ok <==> review_check_spec(purpose@, nric@, status) is None,
        r matches Err(e) ==> Some(e@) == review_check_spec(purpose@, nric@, status),
{
    if crate::text::trim(purpose).unicode_len() == 0 || crate::text::trim(nric).unicode_len() == 0 {
        Err(AppError::BadRequest("both the purpose and your NRIC are required".to_owned()))
    } else if status != TransferStatus::OnHold {
        Err(AppError::Conflict("this transfer is not on hold".to_owned()))
    } else {
        Ok(())
    }
}

// ── Notices to the people involved ──────────────────────────────────

/// What the sender is told when a transfer is held.
pub open spec fn hold_notice_spec(amount: int, reason: Seq<char>) -> Seq<char> {
    "Your current transfer of "@ + dollars_seq(amount) + " is ON HOLD ("@ + reason
        + "). It may be flagged as potentially illegitimate - submit the transfer purpose and your NRIC for staff review."@
}

/// The notice for a held transfer.
pub fn hold_notice(amount: i64, reason: &str) -> (s: String)
    ensures
        s@ == hold_notice_spec(amount as int, reason@),
{
    let mut s = "Your current transfer of ".to_owned();
    s.append(dollars_text(amount).as_str());
    s.append(" is ON HOLD (");
    s.append(reason);
    s.append("). It may be flagged as potentially illegitimate - submit the transfer purpose and your NRIC for staff review.");
    s
}

/// What the sender is told when a transfer completes, naming the recipient
/// (or "the recipient" when the name is unknown).
pub open spec fn sent_notice_spec(amount: int, recipient: Option<Seq<char>>) -> Seq<char> {
    "Your transfer of "@ + dollars_seq(amount) + " to "@ + match recipient {
        Some(n) => n,
        None => "the recipient"@,
    } + " completed."@
}

/// The completion notice for the sender.
pub fn sent_notice(amount: i64, recipient: Option<&str>) -> (s: String)
    ensures
        s@ == sent_notice_spec(
            amount as int,
            match recipient {
                Some(n) => Some(n@),
                None => None,
            },
        ),
{
    let mut s = "Your transfer of ".to_owned();
    s.append(dollars_text(amount).as_str());
    s.append(" to ");
    match recipient {
        Some(n) => s.append(n),
        None => s.append("the recipient"),
    }
    s.append(" completed.");
    s
}

/// What the recipient is told, naming the sender (or "another customer").
pub open spec fn received_notice_spec(amount: int, sender: Option<Seq<char>>) -> Seq<char> {
    "You received "@ + dollars_seq(amount) + " from "@ + match sender {
        Some(n) => n,
        None => "another customer"@,
    } + "."@
}

/// The notice for the recipient of a transfer.
pub fn received_notice(amount: i64, sender: Option<&str>) -> (s: String)
    ensures
        s@ == received_notice_spec(
            amount as int,
            match sender {
                Some(n) => Some(n@),
                None => None,
            },
        ),
{
    let mut s = "You received ".to_owned();
    s.append(dollars_text(amount).as_str());
    s.append(" from ");
    match sender {
        Some(n) => s.append(n),
        None => s.append("another customer"),
    }
    s.append(".");
    s
}

/// What the sender is told when staff release a held transfer.
pub open spec fn released_notice_spec(amount: int, recipient: Option<Seq<char>>) -> Seq<char> {
    "Good news - your held transfer of "@ + dollars_seq(amount) + " to "@ + match recipient {
        Some(n) => n,
        None => "the recipient"@,
    } + " was reviewed and released."@
}

/// The release notice for the sender.
pub fn released_notice(amount: i64, recipient: Option<&str>) -> (s: String)
    ensures
        s@ == released_notice_spec(
            amount as int,
            match recipient {
                Some(n) => Some(n@),
                None => None,
            },
        ),
{
    let mut s = "Good news - your held transfer of ".to_owned();
    s.append(dollars_text(amount).as_str());
    s.append(" to ");
    match recipient {
        Some(n) => s.append(n),
        None => s.append("the recipient"),
    }
    s.append(" was reviewed and released.");
    s
}

/// What the sender is told when staff deny a held transfer.
pub open spec fn denied_notice_spec(amount: int, reason: Seq<char>) -> Seq<char> {
    "Your held transfer of "@ + dollars_seq(amount) + " was denied after review: "@ + reason
}

/// The denial notice for the sender.
pub fn denied_notice(amount: i64, reason: &str) -> (s: String)
    ensures
        s@ == denied_notice_spec(amount as int, reason@),
{
    let mut s = "Your held transfer of ".to_owned();
    s.append(dollars_text(amount).as_str());
    s.append(" was denied after review: ");
    s.append(reason);
    s
}

/// What the owner is told when repeated overdraft attempts freeze an account.
pub fn freeze_notice() -> (s: String)
    ensures
        s@ == "Your account was frozen after repeated attempts to transfer more than its balance. Contact the bank to unfreeze it."@,
{
    "Your account was frozen after repeated attempts to transfer more than its balance. Contact the bank to unfreeze it.".to_owned()
}

} // verus!
