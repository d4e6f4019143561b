//! Account rules: the lifecycle of an account, staff balance adjustments
//! under dual control, per-transfer limit changes with a hold window, and
//! who may see and manage an account.

use vstd::prelude::*;
use crate::errors::{AppError, ErrorKind};
use crate::models::{AccountStatus, AccountType, Role};
use crate::money::{dollars_seq, dollars_text, money_ok, money_seq, money_text, MAX_CENTS};
use crate::text::{ascii_lower, i64_text, int_text};

verus! {

/// Balance adjustments up to $1,000 either way apply at once; larger ones
/// wait for a member of the other staff role.
pub const ADJUSTMENT_DUAL_CONTROL_CENTS: i64 = 100_000;

/// The per-transfer limit a new account starts with: $5,000.
pub const DEFAULT_TRANSFER_LIMIT_CENTS: i64 = 500_000;
/// How long a raised limit is held before it applies: twelve hours.
pub const DEFAULT_LIMIT_HOLD_SECONDS: i32 = 43_200;

/// The state a new account starts in: active when staff open it, pending
/// approval when a customer does.
pub open spec fn open_status_spec(approved: bool) -> AccountStatus {
    if approved {
        AccountStatus::Active
    } else {
        AccountStatus::Pending
    }
}

/// The state a new account starts in.
pub fn open_status(approved: bool) -> (s: AccountStatus)
    ensures
        s == open_status_spec(approved),
{
    if approved {
        AccountStatus::Active
    } else {
        AccountStatus::Pending
    }
}

/// A staff action on an account's state.
#[derive(Clone, Copy, Debug, PartialEq, Eq, Structural)]
pub enum StatusAction {
    Approve,
    Freeze,
    Unfreeze,
    Close,
}

/// What a status action does: the state it moves the account to, or the
/// conflict when the account is not in a state the action applies to.
/// Closing also needs an empty account.
pub open spec fn status_action_spec(action: StatusAction, status: AccountStatus, balance: int) -> Result<AccountStatus, (ErrorKind, Seq<char>)> {
    match action {
        StatusAction::Approve => if status == AccountStatus::Pending {
            Ok(AccountStatus::Active)
        } else {
            Err((ErrorKind::Conflict, "account is not pending approval"@))
        },
        StatusAction::Freeze => if status == AccountStatus::Active {
            Ok(AccountStatus::Frozen)
        } else {
            Err((ErrorKind::Conflict, "account is not active and cannot be frozen"@))
        },
        StatusAction::Unfreeze => if status == AccountStatus::Frozen {
            Ok(AccountStatus::Active)
        } else {
            Err((ErrorKind::Conflict, "account is not frozen and cannot be unfrozen"@))
        },
        StatusAction::Close => if status == AccountStatus::Closed {
            Err((ErrorKind::Conflict, "account is already closed"@))
        } else if balance != 0 {
            Err((ErrorKind::Conflict, "cannot close account with non-zero balance ("@ + money_seq(balance) + ")"@))
        } else {
            Ok(AccountStatus::Closed)
        },
    }
}

/// The view of a status-action result.
pub open spec fn status_result_view(r: Result<AccountStatus, AppError>) -> Result<AccountStatus, (ErrorKind, Seq<char>)> {
    match r {
        Ok(s) => Ok(s),
        Err(e) => Err(e@),
    }
}

/// Decides a staff action on an account in `status` holding `balance`.
pub fn status_action(action: StatusAction, status: AccountStatus, balance: i64) -> (r: Result<AccountStatus, AppError>)
    ensures
        status_result_view(r) == status_action_spec(action, status, balance as int),
{
    match action {
        StatusAction::Approve => if status == AccountStatus::Pending {
            Ok(AccountStatus::Active)
        } else {
            Err(AppError::Conflict("account is not pending approval".to_owned()))
        },
        StatusAction::Freeze => if status == AccountStatus::Active {
            Ok(AccountStatus::Frozen)
        } else {
            Err(AppError::Conflict("account is not active and cannot be frozen".to_owned()))
        },
        StatusAction::Unfreeze => if status == AccountStatus::Frozen {
            Ok(AccountStatus::Active)
        } else {
            Err(AppError::Conflict("account is not frozen and cannot be unfrozen".to_owned()))
        },
        StatusAction::Close => if status == AccountStatus::Closed {
            Err(AppError::Conflict("account is already closed".to_owned()))
        } else if balance != 0 {
            let mut m = "cannot close account with non-zero balance (".to_owned();
            m.append(money_text(balance).as_str());
            m.append(")");
            Err(AppError::Conflict(m))
        } else {
            Ok(AccountStatus::Closed)
        },
    }
}

/// Freezing then unfreezing an active account makes it active again, and
/// unfreezing then freezing a frozen account makes it frozen again.
pub proof fn law_freeze_and_unfreeze_undo_each_other(balance: int)
    ensures
        status_action_spec(StatusAction::Freeze, AccountStatus::Active, balance) == Ok::<AccountStatus, (ErrorKind, Seq<char>)>(AccountStatus::Frozen),
        status_action_spec(StatusAction::Unfreeze, AccountStatus::Frozen, balance) == Ok::<AccountStatus, (ErrorKind, Seq<char>)>(AccountStatus::Active),
{
}

/// A closed account stays closed: no action reopens it.
pub proof fn law_closed_is_final(action: StatusAction, balance: int)
    ensures
        status_action_spec(action, AccountStatus::Closed, balance) is Err,
{
}

/// What the owner is told when staff approve a new account.
pub open spec fn approved_notice_spec(kind: AccountType) -> Seq<char> {
    "Your new "@ + ascii_lower(kind.spec_label()) + " account was approved and is now active."@
}

/// The approval notice for the owner of a new account of `kind`.
pub fn approved_notice(kind: AccountType) -> (s: String)
    ensures
        s@ == approved_notice_spec(kind),
{
    let mut s = "Your new ".to_owned();
    s.append(crate::text::to_ascii_lower(kind.label()).as_str());
    s.append(" account was approved and is now active.");
    s
}

/// What the owner is told when staff freeze an account.
pub fn frozen_notice() -> (s: String)
    ensures
        s@ == "One of your accounts was frozen by the bank. Transfers from it are blocked - contact support if this is unexpected."@,
{
    "One of your accounts was frozen by the bank. Transfers from it are blocked - contact support if this is unexpected.".to_owned()
}

/// What the owner is told when staff unfreeze an account.
pub fn unfrozen_notice() -> (s: String)
    ensures
        s@ == "Your account was unfrozen - you can transact again."@,
{
    "Your account was unfrozen - you can transact again.".to_owned()
}

// ── Balance adjustments ──────────────────────────────────────────────

/// A direct staff adjustment of `delta` to account `account_id` whose
/// balance, if the account exists, is `balance`: a zero delta is refused
/// first, then a missing account, then an adjustment that would leave the
/// balance negative. The result is the new balance.
pub open spec fn adjust_spec(account_id: int, balance: Option<i64>, delta: int) -> Result<i64, (ErrorKind, Seq<char>)> {
    if delta == 0 {
        Err((ErrorKind::BadRequest, "adjustment cannot be zero"@))
    } else {
        match balance {
            None => Err((ErrorKind::NotFound, "account "@ + int_text(account_id) + " not found"@)),
            Some(b) => if b + delta < 0 {
                Err(
                    (ErrorKind::Conflict, "adjustment would make the balance negative ("@
                        + dollars_seq(b as int) + " + "@ + dollars_seq(delta) + ")"@),
                )
            } else if b + delta > MAX_CENTS {
                Err((ErrorKind::Internal, "numeric field overflow"@))
            } else {
                Ok((b + delta) as i64)
            },
        }
    }
}

/// The view of an amount result.
pub open spec fn amount_result_view(r: Result<i64, AppError>) -> Result<i64, (ErrorKind, Seq<char>)> {
    match r {
        Ok(x) => Ok(x),
        Err(e) => Err(e@),
    }
}

/// Decides a direct staff adjustment.
pub fn adjust_decision(account_id: i64, balance: Option<i64>, delta: i64) -> (r: Result<i64, AppError>)
    requires
        money_ok(delta as int),
        balance matches Some(b) ==> 0 <= b <= MAX_CENTS,
    ensures
        amount_result_view(r) == adjust_spec(account_id as int, balance, delta as int),
{
    if delta == 0 {
        return Err(AppError::BadRequest("adjustment cannot be zero".to_owned()));
    }
    match balance {
        None => {
            let mut m = "account ".to_owned();
            m.append(i64_text(account_id).as_str());
            m.append(" not found");
            Err(AppError::NotFound(m))
        },
        Some(b) => if b + delta < 0 {
            let mut m = "adjustment would make the balance negative (".to_owned();
            m.append(dollars_text(b).as_str());
            m.append(" + ");
            m.append(dollars_text(delta).as_str());
            m.append(")");
            Err(AppError::Conflict(m))
        } else if b + delta > MAX_CENTS {
            Err(AppError::Internal("numeric field overflow".to_owned()))
        } else {
            Ok(b + delta)
        },
    }
}

/// Where a staff balance adjustment goes.
#[derive(Clone, Copy, Debug, PartialEq, Eq, Structural)]
pub enum AdjustRoute {
    /// Applied at once.
    Immediate,
    /// Parked until a member of the other staff role approves it.
    Parked,
}

/// Routing of a staff adjustment request: customers may not adjust, a zero
/// delta is refused, up to $1,000 either way applies at once and anything
/// larger waits for dual control.
pub open spec fn adjustment_route_spec(role: Role, delta: int) -> Result<AdjustRoute, (ErrorKind, Seq<char>)> {
    if role == Role::Customer {
        Err((ErrorKind::Forbidden, Seq::empty()))
    } else if delta == 0 {
        Err((ErrorKind::BadRequest, "adjustment cannot be zero"@))
    } else if -ADJUSTMENT_DUAL_CONTROL_CENTS <= delta <= ADJUSTMENT_DUAL_CONTROL_CENTS {
        Ok(AdjustRoute::Immediate)
    } else {
        Ok(AdjustRoute::Parked)
    }
}

/// The view of a routing result.
pub open spec fn route_view(r: Result<AdjustRoute, AppError>) -> Result<AdjustRoute, (ErrorKind, Seq<char>)> {
    match r {
        Ok(x) => Ok(x),
        Err(e) => Err(e@),
    }
}

/// Routes a staff adjustment request.
pub fn adjustment_route(role: Role, delta: i64) -> (r: Result<AdjustRoute, AppError>)
    ensures
        route_view(r) == adjustment_route_spec(role, delta as int),
{
    if role == Role::Customer {
        Err(AppError::Forbidden)
    } else if delta == 0 {
        Err(AppError::BadRequest("adjustment cannot be zero".to_owned()))
    } else if -ADJUSTMENT_DUAL_CONTROL_CENTS <= delta && delta <= ADJUSTMENT_DUAL_CONTROL_CENTS {
        Ok(AdjustRoute::Immediate)
    } else {
        Ok(AdjustRoute::Parked)
    }
}

/// A parked adjustment request, as read under lock.
#[derive(Clone, Copy, Debug, PartialEq, Eq, Structural)]
pub struct ParkedAdjustment {
    pub account_id: i64,
    pub delta: i64,
    pub requested_by: i64,
    pub requested_role: Role,
}

/// The dual-control approval of a parked adjustment: customers may not
/// approve; the request must still be open; the approver must be another
/// person of the other staff role; the result must not be negative. The
/// result is the account's new balance.
pub open spec fn approve_adjustment_spec(
    approver: int,
    approver_role: Role,
    request: Option<ParkedAdjustment>,
    balance: Option<i64>,
) -> Result<i64, (ErrorKind, Seq<char>)> {
    if approver_role == Role::Customer {
        Err((ErrorKind::Forbidden, Seq::empty()))
    } else {
        match request {
            None => Err((ErrorKind::Conflict, "this adjustment request no longer exists or was already approved"@)),
            Some(q) => if approver == q.requested_by || approver_role == q.requested_role {
                Err((ErrorKind::Conflict, "dual control: a member of the OTHER staff role must approve this adjustment"@))
            } else {
                match balance {
                    None => Err((ErrorKind::NotFound, "account "@ + int_text(q.account_id as int) + " not found"@)),
                    Some(b) => if b + q.delta < 0 {
                        Err((ErrorKind::Conflict, "applying this adjustment would make the balance negative"@))
                    } else if b + q.delta > MAX_CENTS {
                        Err((ErrorKind::Internal, "numeric field overflow"@))
                    } else {
                        Ok((b + q.delta) as i64)
                    },
                }
            },
        }
    }
}

/// Decides the second approval of a parked adjustment.
pub fn approve_adjustment_decision(
    approver: i64,
    approver_role: Role,
    request: Option<ParkedAdjustment>,
    balance: Option<i64>,
) -> (r: Result<i64, AppError>)
    requires
        request matches Some(q) ==> money_ok(q.delta as int),
        balance matches Some(b) ==> 0 <= b <= MAX_CENTS,
    ensures
        amount_result_view(r) == approve_adjustment_spec(approver as int, approver_role, request, balance),
{
    if approver_role == Role::Customer {
        return Err(AppError::Forbidden);
    }
    match request {
        None => Err(AppError::Conflict("this adjustment request no longer exists or was already approved".to_owned())),
        Some(q) => if approver == q.requested_by || approver_role == q.requested_role {
            Err(AppError::Conflict("dual control: a member of the OTHER staff role must approve this adjustment".to_owned()))
        } else {
            match balance {
                None => {
                    let mut m = "account ".to_owned();
                    m.append(i64_text(q.account_id).as_str());
                    m.append(" not found");
                    Err(AppError::NotFound(m))
                },
                Some(b) => if b + q.delta < 0 {
                    Err(AppError::Conflict("applying this adjustment would make the balance negative".to_owned()))
                } else if b + q.delta > MAX_CENTS {
                    Err(AppError::Internal("numeric field overflow".to_owned()))
                } else {
                    Ok(b + q.delta)
                },
            }
        },
    }
}

/// Dual control: an approved adjustment was approved by someone other than
/// its requester, holding the other staff role, and never leaves the
/// balance negative.
pub proof fn law_dual_control(approver: int, approver_role: Role, request: Option<ParkedAdjustment>, balance: Option<i64>)
    requires
        approve_adjustment_spec(approver, approver_role, request, balance) is Ok,
    ensures
        request matches Some(q) && approver != q.requested_by && approver_role != q.requested_role
            && approver_role != Role::Customer,
        approve_adjustment_spec(approver, approver_role, request, balance)->Ok_0 >= 0,
{
}

// ── Per-transfer limit changes ──────────────────────────────────────

/// What a limit-change request does.
#[derive(Clone, Copy, Debug, PartialEq, Eq, Structural)]
pub enum LimitChange {
    /// Lowering reduces risk: the new limit applies now.
    ApplyNow,
    /// Raising is held: the new limit takes effect at the given time.
    HoldUntil(i64),
}

/// A limit-change request for an account whose current limit and hold
/// window (seconds), if the account exists, are given: a limit must be
/// positive; a lower or equal limit applies now; a higher one waits out the
/// hold window.
pub open spec fn limit_change_spec(account_id: int, new_limit: int, current: Option<(i64, i32)>, now: int) -> Result<LimitChange, (ErrorKind, Seq<char>)> {
    if new_limit <= 0 {
        Err((ErrorKind::BadRequest, "the limit must be positive"@))
    } else {
        match current {
            None => Err((ErrorKind::NotFound, "account "@ + int_text(account_id) + " not found"@)),
            Some((limit, hold_seconds)) => if new_limit <= limit {
                Ok(LimitChange::ApplyNow)
            } else {
                Ok(LimitChange::HoldUntil((now + hold_seconds * 1_000_000) as i64))
            },
        }
    }
}

/// The view of a limit-change result.
pub open spec fn limit_result_view(r: Result<LimitChange, AppError>) -> Result<LimitChange, (ErrorKind, Seq<char>)> {
    match r {
        Ok(x) => Ok(x),
        Err(e) => Err(e@),
    }
}

/// Decides a limit-change request made at time `now` (microseconds).
pub fn limit_change_decision(account_id: i64, new_limit: i64, current: Option<(i64, i32)>, now: i64) -> (r: Result<LimitChange, AppError>)
    requires
        0 <= now <= i64::MAX / 2,
        current matches Some((_, h)) ==> h >= 0,
    ensures
        limit_result_view(r) == limit_change_spec(account_id as int, new_limit as int, current, now as int),
{
    if new_limit <= 0 {
        return Err(AppError::BadRequest("the limit must be positive".to_owned()));
    }
    match current {
        None => {
            let mut m = "account ".to_owned();
            m.append(i64_text(account_id).as_str());
            m.append(" not found");
            Err(AppError::NotFound(m))
        },
        Some((limit, hold_seconds)) => if new_limit <= limit {
            Ok(LimitChange::ApplyNow)
        } else {
            proof {
                assert(hold_seconds * 1_000_000 <= i32::MAX * 1_000_000) by (nonlinear_arith)
                    requires
                        0 <= hold_seconds <= i32::MAX,
                ;
            }
            Ok(LimitChange::HoldUntil(now + (hold_seconds as i64) * 1_000_000))
        },
    }
}

/// A raised limit never takes effect before its hold window has passed.
pub proof fn law_limit_increase_is_held(account_id: int, new_limit: int, limit: i64, hold_seconds: i32, now: int)
    requires
        new_limit > limit,
        new_limit > 0,
        hold_seconds >= 0,
        0 <= now <= i64::MAX / 2,
    ensures
        limit_change_spec(account_id, new_limit, Some((limit, hold_seconds)), now)
            == Ok::<LimitChange, (ErrorKind, Seq<char>)>(
            LimitChange::HoldUntil((now + hold_seconds * 1_000_000) as i64),
        ),
        now + hold_seconds * 1_000_000 >= now,
{
}

/// What the owner is told about a limit change.
pub open spec fn limit_notice_spec(change: LimitChange, new_limit: int) -> Seq<char> {
    match change {
        LimitChange::ApplyNow => "Your per-transfer limit was lowered to "@ + dollars_seq(new_limit)
            + ", effective immediately."@,
        LimitChange::HoldUntil(_) => "Limit increase to "@ + dollars_seq(new_limit)
            + " accepted. For your security it is held before taking effect - the account page shows the exact time in your local timezone."@,
    }
}

/// The notice for a limit change.
pub fn limit_notice(change: LimitChange, new_limit: i64) -> (s: String)
    ensures
        s@ == limit_notice_spec(change, new_limit as int),
{
    match change {
        LimitChange::ApplyNow => {
            let mut s = "Your per-transfer limit was lowered to ".to_owned();
            s.append(dollars_text(new_limit).as_str());
            s.append(", effective immediately.");
            s
        },
        LimitChange::HoldUntil(_) => {
            let mut s = "Limit increase to ".to_owned();
            s.append(dollars_text(new_limit).as_str());
            s.append(" accepted. For your security it is held before taking effect - the account page shows the exact time in your local timezone.");
            s
        },
    }
}

// ── Who may see and manage an account ───────────────────────────────

/// Customers see only their own accounts; staff see any.
pub open spec fn can_view_spec(owner: int, viewer: int, role: Role) -> bool {
    owner == viewer || role != Role::Customer
}

/// Whether `viewer` with `role` may see an account owned by `owner`.
pub fn can_view(owner: i64, viewer: i64, role: Role) -> (b: bool)
    ensures
        b == can_view_spec(owner as int, viewer as int, role),
{
    owner == viewer || role != Role::Customer
}

/// Only staff may freeze accounts.
pub fn is_staff(role: Role) -> (b: bool)
    ensures
        b == role.is_staff(),
{
    role != Role::Customer
}

} // verus!
