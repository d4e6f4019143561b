//! Loan rules: applications, dual approval, simple-interest totals and
//! repayments.
//!
//! Amounts are cents; an interest rate is held in hundredths of a percent
//! (`0.0525`, i.e. 5.25 %, is 525). The total owed over the life of a loan
//! is `principal * (1 + rate * term_months / 12)`; it is kept exact as a
//! multiple of `1 / TOTAL_DUE_SCALE` cent.

use vstd::prelude::*;
use crate::errors::{AppError, ErrorKind};
use crate::models::{LoanStatus, Role};
use crate::money::{money_ok, MAX_CENTS};
use crate::text::{ascii_lower, digit_char, digit_str, digits, int_text, i64_text, push_digits};

verus! {

/// `12 months * 10_000` hundredths-of-a-percent units: the denominator of
/// an exact total due, in cents.
pub const TOTAL_DUE_SCALE: i128 = 120_000;
/// Rates are below 100 %.
pub const MAX_RATE_BP: i64 = 10_000;
/// Terms run from one month to thirty years.
pub const MAX_TERM_MONTHS: i32 = 360;

/// The checks on a loan application.
pub open spec fn application_check_spec(principal: int, rate_bp: int, term_months: int) -> Option<(ErrorKind, Seq<char>)> {
    if principal <= 0 {
        Some((ErrorKind::BadRequest, "principal must be positive"@))
    } else if rate_bp < 0 || rate_bp >= MAX_RATE_BP {
        Some((ErrorKind::BadRequest, "interest rate must be between 0 and 1 (e.g. 0.0525 for 5.25%)"@))
    } else if !(1 <= term_months <= MAX_TERM_MONTHS) {
        Some((ErrorKind::BadRequest, "term must be between 1 and 360 months"@))
    } else {
        None
    }
}

/// Checks a loan application: a positive principal, a rate in `[0, 1)`
/// and a term of 1 to 360 months.
pub fn check_application(principal: i64, rate_bp: i64, term_months: i32) -> (r: Result<(), AppError>)
    ensures
        r is Ok <==> application_check_spec(principal as int, rate_bp as int, term_months as int) is None,
        r matches Err(e) ==> Some(e@) == application_check_spec(principal as int, rate_bp as int, term_months as int),
{
    if principal <= 0 {
        Err(AppError::BadRequest("principal must be positive".to_owned()))
    } else if rate_bp < 0 || rate_bp >= MAX_RATE_BP {
        Err(AppError::BadRequest("interest rate must be between 0 and 1 (e.g. 0.0525 for 5.25%)".to_owned()))
    } else if !(1 <= term_months && term_months <= MAX_TERM_MONTHS) {
        Err(AppError::BadRequest("term must be between 1 and 360 months".to_owned()))
    } else {
        Ok(())
    }
}

/// The total owed over a loan's life, in units of `1 / TOTAL_DUE_SCALE` cent:
/// `principal * (1 + rate * term / 12)`.
pub open spec fn total_due_scaled(principal: int, rate_bp: int, term_months: int) -> int {
    principal * (TOTAL_DUE_SCALE + rate_bp * term_months)
}

/// Computes [`total_due_scaled`].
pub fn total_due(principal: i64, rate_bp: i64, term_months: i32) -> (r: i128)
    requires
        0 < principal <= MAX_CENTS,
        0 <= rate_bp < MAX_RATE_BP,
        1 <= term_months <= MAX_TERM_MONTHS,
    ensures
        r == total_due_scaled(principal as int, rate_bp as int, term_months as int),
        0 < r,
{
    proof {
        assert((rate_bp as int) * (term_months as int) <= 10_000 * 360) by (nonlinear_arith)
            requires
                0 <= rate_bp < 10_000,
                1 <= term_months <= 360,
        ;
        assert((rate_bp as int) * (term_months as int) >= 0) by (nonlinear_arith)
            requires
                0 <= rate_bp,
                1 <= term_months,
        ;
    }
    let factor: i128 = TOTAL_DUE_SCALE + (rate_bp as i128) * (term_months as i128);
    proof {
        assert((principal as int) * (factor as int) <= MAX_CENTS * 4_000_000) by (nonlinear_arith)
            requires
                0 < principal <= MAX_CENTS,
                0 < factor <= 4_000_000,
        ;
        assert((principal as int) * (factor as int) > 0) by (nonlinear_arith)
            requires
                0 < principal,
                0 < factor,
        ;
    }
    (principal as i128) * factor
}

/// What is still owed, in units of `1 / TOTAL_DUE_SCALE` cent: the total due
/// less what was paid, never below zero.
pub open spec fn outstanding_scaled(due_scaled: int, paid: int) -> int {
    if due_scaled - paid * TOTAL_DUE_SCALE > 0 {
        due_scaled - paid * TOTAL_DUE_SCALE
    } else {
        0
    }
}

/// Computes [`outstanding_scaled`].
pub fn outstanding(due_scaled: i128, paid: i128) -> (r: i128)
    requires
        0 <= due_scaled <= MAX_CENTS * 4_000_000,
        0 <= paid <= MAX_CENTS * 1_000_000,
    ensures
        r == outstanding_scaled(due_scaled as int, paid as int),
        r >= 0,
{
    let owed = due_scaled - paid * TOTAL_DUE_SCALE;
    if owed > 0 {
        owed
    } else {
        0
    }
}

/// `n / d` rounded to the nearest integer, ties to the even neighbour (the
/// rounding `rust_decimal`'s `round_dp` uses).
pub open spec fn round_half_even(n: int, d: int) -> int {
    let q = n / d;
    let r = n % d;
    if 2 * r > d {
        q + 1
    } else if 2 * r < d {
        q
    } else if q % 2 == 0 {
        q
    } else {
        q + 1
    }
}

/// An exact total in `1 / TOTAL_DUE_SCALE` cent, rounded to cents.
pub fn scaled_to_cents(x: i128) -> (r: i128)
    requires
        0 <= x,
    ensures
        r == round_half_even(x as int, TOTAL_DUE_SCALE as int),
{
    let q = x / TOTAL_DUE_SCALE;
    let r = x % TOTAL_DUE_SCALE;
    if 2 * r > TOTAL_DUE_SCALE {
        q + 1
    } else if 2 * r < TOTAL_DUE_SCALE {
        q
    } else if q % 2 == 0 {
        q
    } else {
        q + 1
    }
}

/// A repayment's effect on a loan: the loan is paid off once what was
/// paid covers the total due, and otherwise active.
pub open spec fn status_after_repayment(due_scaled: int, paid_after: int) -> LoanStatus {
    if due_scaled - paid_after * TOTAL_DUE_SCALE <= 0 {
        LoanStatus::PaidOff
    } else {
        LoanStatus::Active
    }
}

/// The checks on a repayment of `amount` toward a loan in `status`, from a
/// funding account that is `funding_active` and holds `funding_balance`.
pub open spec fn repayment_check_spec(
    loan_id: int,
    amount: int,
    status: Option<LoanStatus>,
    funding_active: bool,
    funding_balance: int,
) -> Option<(ErrorKind, Seq<char>)> {
    if amount <= 0 {
        Some((ErrorKind::BadRequest, "repayment must be positive"@))
    } else {
        match status {
            None => Some((ErrorKind::NotFound, "loan "@ + int_text(loan_id) + " not found"@)),
            Some(s) => if s != LoanStatus::Approved && s != LoanStatus::Active {
                Some((ErrorKind::Conflict, "cannot repay a loan that is "@ + ascii_lower(s.spec_label())))
            } else if !funding_active {
                Some((ErrorKind::Conflict, "the funding account is not active"@))
            } else if funding_balance < amount {
                Some((ErrorKind::Conflict, "insufficient funds in the funding account"@))
            } else {
                None
            },
        }
    }
}

/// Checks a repayment: a positive amount toward an approved or active loan,
/// drawn from an active account that holds it.
pub fn check_repayment(
    loan_id: i64,
    amount: i64,
    status: Option<LoanStatus>,
    funding_active: bool,
    funding_balance: i64,
) -> (r: Result<(), AppError>)
    ensures
        r is Ok <==> repayment_check_spec(loan_id as int, amount as int, status, funding_active, funding_balance as int) is None,
        r matches Err(e) ==> Some(e@) == repayment_check_spec(loan_id as int, amount as int, status, funding_active, funding_balance as int),
{
    if amount <= 0 {
        return Err(AppError::BadRequest("repayment must be positive".to_owned()));
    }
    match status {
        None => {
            let mut m = "loan ".to_owned();
            m.append(i64_text(loan_id).as_str());
            m.append(" not found");
            Err(AppError::NotFound(m))
        },
        Some(s) => if s != LoanStatus::Approved && s != LoanStatus::Active {
            let mut m = "cannot repay a loan that is ".to_owned();
            m.append(s.lower_label().as_str());
            Err(AppError::Conflict(m))
        } else if !funding_active {
            Err(AppError::Conflict("the funding account is not active".to_owned()))
        } else if funding_balance < amount {
            Err(AppError::Conflict("insufficient funds in the funding account".to_owned()))
        } else {
            Ok(())
        },
    }
}

/// The two approvals a loan needs: one from a teller and one from an admin.
#[derive(Clone, Copy, Debug, PartialEq, Eq, Structural)]
pub struct Approvals {
    pub teller: bool,
    pub admin: bool,
}

/// What recording an approval does.
#[derive(Clone, Copy, Debug, PartialEq, Eq, Structural)]
pub enum ApprovalOutcome {
    /// The approval was recorded; the other role has yet to approve.
    Recorded(Approvals),
    /// The second approval: the loan is approved and its principal paid out.
    Complete(Approvals),
}

/// Recording a staff approval on loan `loan_id`: customers may not approve;
/// the loan must be pending; each staff role approves once; the loan is
/// approved when both roles have.
pub open spec fn approval_spec(loan_id: int, role: Role, status: Option<LoanStatus>, have: Approvals) -> Result<ApprovalOutcome, (ErrorKind, Seq<char>)> {
    if role == Role::Customer {
        Err((ErrorKind::Forbidden, Seq::empty()))
    } else if status != Some(LoanStatus::Pending) {
        Err((ErrorKind::Conflict, "loan "@ + int_text(loan_id) + " is not pending or does not exist"@))
    } else if (role == Role::Teller && have.teller) || (role == Role::Admin && have.admin) {
        Err((ErrorKind::Conflict, "your role has already approved this loan"@))
    } else {
        let next = if role == Role::Teller {
            Approvals { teller: true, ..have }
        } else {
            Approvals { admin: true, ..have }
        };
        if next.teller && next.admin {
            Ok(ApprovalOutcome::Complete(next))
        } else {
            Ok(ApprovalOutcome::Recorded(next))
        }
    }
}

/// The view of an approval result.
pub open spec fn approval_view(r: Result<ApprovalOutcome, AppError>) -> Result<ApprovalOutcome, (ErrorKind, Seq<char>)> {
    match r {
        Ok(x) => Ok(x),
        Err(e) => Err(e@),
    }
}

/// Records a staff approval.
pub fn record_approval(loan_id: i64, role: Role, status: Option<LoanStatus>, have: Approvals) -> (r: Result<ApprovalOutcome, AppError>)
    ensures
        approval_view(r) == approval_spec(loan_id as int, role, status, have),
{
    if role == Role::Customer {
        return Err(AppError::Forbidden);
    }
    if status != Some(LoanStatus::Pending) {
        let mut m = "loan ".to_owned();
        m.append(i64_text(loan_id).as_str());
        m.append(" is not pending or does not exist");
        return Err(AppError::Conflict(m));
    }
    if (role == Role::Teller && have.teller) || (role == Role::Admin && have.admin) {
        return Err(AppError::Conflict("your role has already approved this loan".to_owned()));
    }
    let next = if role == Role::Teller {
        Approvals { teller: true, ..have }
    } else {
        Approvals { admin: true, ..have }
    };
    if next.teller && next.admin {
        Ok(ApprovalOutcome::Complete(next))
    } else {
        Ok(ApprovalOutcome::Recorded(next))
    }
}

/// Simple interest for every month of the term, in units of 1/120,000
/// cent: with no interest, or no term, the total due is the principal;
/// each further month of term adds one month's interest, the principal
/// times the yearly rate (in hundredths of a percent) over twelve. So $1,000
/// at 12% owes $1,120 over 12 months and $1,240 over 24.
pub proof fn law_interest_accrues_for_every_month_of_the_term(principal: int, rate_bp: int, term_months: int)
    ensures
        total_due_scaled(principal, 0, term_months) == 120_000 * principal,
        total_due_scaled(principal, rate_bp, 0) == 120_000 * principal,
        total_due_scaled(principal, rate_bp, term_months + 1) == total_due_scaled(principal, rate_bp, term_months)
            + principal * rate_bp,
{
    assert(principal * (120_000 + rate_bp * (term_months + 1)) == principal * (120_000 + rate_bp * term_months)
        + principal * rate_bp) by (nonlinear_arith);
    assert(principal * (120_000 + 0 * term_months) == 120_000 * principal) by (nonlinear_arith);
    assert(principal * (120_000 + rate_bp * 0) == 120_000 * principal) by (nonlinear_arith);
}

/// A loan is paid off exactly when what was paid covers the principal and
/// the interest of the whole term: 120,000 times the cents paid reach
/// 120,000 times the principal plus principal × rate × months.
pub proof fn law_paid_off_exactly_when_the_term_interest_is_paid(principal: int, rate_bp: int, term_months: int, paid: int)
    ensures
        status_after_repayment(total_due_scaled(principal, rate_bp, term_months), paid) == LoanStatus::PaidOff
            <==> 120_000 * paid >= 120_000 * principal + principal * rate_bp * term_months,
{
    assert(principal * (120_000 + rate_bp * term_months) == 120_000 * principal + principal * rate_bp * term_months)
        by (nonlinear_arith);
}

/// Either staff role may give the first approval of a pending loan: it is
/// recorded with that role's mark alone and the loan waits for the other
/// role; the other role's approval then completes the pair, and a second
/// approval by the same role is refused.
pub proof fn law_either_role_may_approve_first(loan_id: int, role: Role, other: Role)
    requires
        role == Role::Teller || role == Role::Admin,
        other == Role::Teller || other == Role::Admin,
        other != role,
    ensures
        ({
            let none = Approvals { teller: false, admin: false };
            let first = Approvals { teller: role == Role::Teller, admin: role == Role::Admin };
            &&& approval_spec(loan_id, role, Some(LoanStatus::Pending), none) == Ok::<
                ApprovalOutcome,
                (ErrorKind, Seq<char>),
            >(ApprovalOutcome::Recorded(first))
            &&& approval_spec(loan_id, other, Some(LoanStatus::Pending), first) == Ok::<
                ApprovalOutcome,
                (ErrorKind, Seq<char>),
            >(ApprovalOutcome::Complete(Approvals { teller: true, admin: true }))
            &&& approval_spec(loan_id, role, Some(LoanStatus::Pending), first) is Err
        }),
{
}

/// A loan is approved only with both a teller's and an admin's approval.
pub proof fn law_loan_needs_both_roles(loan_id: int, role: Role, status: Option<LoanStatus>, have: Approvals)
    requires
        approval_spec(loan_id, role, status, have) matches Ok(ApprovalOutcome::Complete(_)),
    ensures
        (role == Role::Teller && have.admin && !have.teller) || (role == Role::Admin && have.teller
            && !have.admin),
{
}

/// Rejecting a loan application: only a pending loan can be rejected.
pub open spec fn reject_spec(loan_id: int, role: Role, status: Option<LoanStatus>) -> Option<(ErrorKind, Seq<char>)> {
    if role == Role::Customer {
        Some((ErrorKind::Forbidden, Seq::empty()))
    } else if status != Some(LoanStatus::Pending) {
        Some((ErrorKind::Conflict, "loan "@ + int_text(loan_id) + " is not pending or does not exist"@))
    } else {
        None
    }
}

/// Checks a staff rejection of a loan application.
pub fn check_reject(loan_id: i64, role: Role, status: Option<LoanStatus>) -> (r: Result<(), AppError>)
    ensures
        r is Ok <==> reject_spec(loan_id as int, role, status) is None,
        r matches Err(e) ==> Some(e@) == reject_spec(loan_id as int, role, status),
{
    if role == Role::Customer {
        return Err(AppError::Forbidden);
    }
    if status != Some(LoanStatus::Pending) {
        let mut m = "loan ".to_owned();
        m.append(i64_text(loan_id).as_str());
        m.append(" is not pending or does not exist");
        return Err(AppError::Conflict(m));
    }
    Ok(())
}

/// Whether the borrower can repay now: the loan is approved or active and
/// the viewer is its borrower.
pub open spec fn can_repay_spec(status: LoanStatus, borrower: int, viewer: int) -> bool {
    (status == LoanStatus::Approved || status == LoanStatus::Active) && borrower == viewer
}

/// Whether `viewer` can repay a loan of `borrower` in `status`.
pub fn can_repay(status: LoanStatus, borrower: i64, viewer: i64) -> (b: bool)
    ensures
        b == can_repay_spec(status, borrower as int, viewer as int),
{
    (status == LoanStatus::Approved || status == LoanStatus::Active) && borrower == viewer
}

/// Whether a staff viewer can still record an approval: the loan is
/// pending and the viewer's role has not approved it yet.
pub open spec fn can_decide_spec(role: Role, status: LoanStatus, have: Approvals) -> bool {
    role != Role::Customer && status == LoanStatus::Pending && !(match role {
        Role::Admin => have.admin,
        Role::Teller => have.teller,
        Role::Customer => true,
    })
}

/// Whether `role` can still approve or reject a loan.
pub fn can_decide(role: Role, status: LoanStatus, have: Approvals) -> (b: bool)
    ensures
        b == can_decide_spec(role, status, have),
{
    let already = match role {
        Role::Admin => have.admin,
        Role::Teller => have.teller,
        Role::Customer => true,
    };
    role != Role::Customer && status == LoanStatus::Pending && !already
}

/// The annual rate as a percentage with trailing zeros dropped and a `%`
/// sign: 525 hundredths of a percent is "5.25%", 700 is "7%", 650 is "6.5%".
pub open spec fn rate_pct_spec(rate_bp: nat) -> Seq<char> {
    let whole = rate_bp / 100;
    let frac = rate_bp % 100;
    digits(whole) + if frac == 0 {
        Seq::empty()
    } else if frac % 10 == 0 {
        seq!['.', digit_char((frac / 10) as int)]
    } else {
        seq!['.', digit_char((frac / 10) as int), digit_char((frac % 10) as int)]
    } + seq!['%']
}

/// Renders an annual rate held in hundredths of a percent.
pub fn rate_pct(rate_bp: u64) -> (s: String)
    ensures
        s@ == rate_pct_spec(rate_bp as nat),
{
    let mut s = String::new();
    push_digits(&mut s, rate_bp / 100);
    let frac = rate_bp % 100;
    proof {
        reveal_strlit(".");
        reveal_strlit("%");
    }
    if frac != 0 {
        s.append(".");
        s.append(digit_str(frac / 10));
        if frac % 10 != 0 {
            s.append(digit_str(frac % 10));
        }
    }
    s.append("%");
    proof {
        assert(s@ =~= rate_pct_spec(rate_bp as nat));
    }
    s
}

} // verus!
