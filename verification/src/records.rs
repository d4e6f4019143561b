//! The rows pages show: accounts, transfers, loans and repayments, and the
//! staff tables' rows joined to owners' names. Amounts are cents, interest
//! rates hundredths of a percent, times microseconds.

use vstd::prelude::*;
use crate::loans::{rate_pct, rate_pct_spec};
use crate::models::{AccountStatus, AccountType, LoanStatus, Role, TransferStatus};
use crate::transfer::LARGE_TRANSFER_CENTS;

verus! {

/// A bank account.
#[derive(Clone, Debug)]
pub struct Account {
    pub id: i64,
    pub user_id: i64,
    pub account_number: String,
    pub kind: AccountType,
    pub status: AccountStatus,
    pub balance: i64,
    pub transfer_limit: i64,
    pub created_at: i64,
}

/// A transfer between two accounts.
#[derive(Clone, Debug)]
pub struct Transfer {
    pub id: i64,
    pub from_account_id: i64,
    pub to_account_id: i64,
    pub amount: i64,
    pub status: TransferStatus,
    pub note: Option<String>,
    /// Why the transfer was rejected or held.
    pub status_reason: Option<String>,
    pub created_at: i64,
}

/// A loan.
#[derive(Clone, Debug)]
pub struct Loan {
    pub id: i64,
    pub user_id: i64,
    pub principal: i64,
    /// Annual rate in hundredths of a percent (525 is 5.25 %).
    pub rate_bp: u64,
    pub term_months: i32,
    pub status: LoanStatus,
    /// The account credited with the principal once the loan is approved.
    pub disbursement_account_id: Option<i64>,
    /// When the next monthly repayment is due.
    pub next_payment_due: Option<i64>,
    pub created_at: i64,
}

impl Loan {
    /// The annual rate as a percentage, e.g. "5.25%".
    pub fn rate_pct(&self) -> (s: String)
        ensures
            s@ == rate_pct_spec(self.rate_bp as nat),
    {
        rate_pct(self.rate_bp)
    }
}

/// A repayment toward a loan.
#[derive(Clone, Debug)]
pub struct Repayment {
    pub id: i64,
    pub loan_id: i64,
    pub amount: i64,
    /// The account the repayment was drawn from.
    pub account_id: Option<i64>,
    pub paid_at: i64,
}

/// A row of the staff accounts table.
#[derive(Clone, Debug)]
pub struct AdminAccountRow {
    pub id: i64,
    pub user_id: i64,
    pub account_number: String,
    pub kind: AccountType,
    pub status: AccountStatus,
    pub balance: i64,
    pub created_at: i64,
    pub owner_name: String,
    pub owner_email: String,
}

/// A row of the staff transfers table.
#[derive(Clone, Debug)]
pub struct AdminTransferRow {
    pub id: i64,
    pub from_account_id: i64,
    pub to_account_id: i64,
    pub from_user_id: i64,
    pub to_user_id: i64,
    pub from_number: String,
    pub to_number: String,
    pub from_owner: String,
    pub to_owner: String,
    pub amount: i64,
    pub status: TransferStatus,
    pub note: Option<String>,
    pub status_reason: Option<String>,
    pub created_at: i64,
}

/// Why a transfer row is noteworthy: its recorded reason, else a large
/// amount.
pub open spec fn flag_reason_spec(status_reason: Option<Seq<char>>, amount: int) -> Option<Seq<char>> {
    match status_reason {
        Some(r) => Some(r),
        None => if amount >= LARGE_TRANSFER_CENTS {
            Some("Large transfer (>= $10,000)"@)
        } else {
            None
        },
    }
}

impl AdminTransferRow {
    /// Why this transfer is noteworthy: an explicit rejection or hold
    /// reason, or a large amount; `None` for ordinary transfers.
    pub fn flag_reason(&self) -> (r: Option<String>)
        ensures
            match r {
                Some(x) => flag_reason_spec(
                    match self.status_reason {
                        Some(s) => Some(s@),
                        None => None,
                    },
                    self.amount as int,
                ) == Some(x@),
                None => flag_reason_spec(
                    match self.status_reason {
                        Some(s) => Some(s@),
                        None => None,
                    },
                    self.amount as int,
                ) is None,
            },
    {
        match &self.status_reason {
            Some(reason) => Some(reason.clone()),
            None => if self.amount >= LARGE_TRANSFER_CENTS {
                Some("Large transfer (>= $10,000)".to_owned())
            } else {
                None
            },
        }
    }
}

/// A row of the users picker.
#[derive(Clone, Debug)]
pub struct AdminUserRow {
    pub id: i64,
    pub email: String,
    pub full_name: String,
    pub role: Role,
}

/// A transfer on the fraud panel, with the reason it is flagged.
#[derive(Clone, Debug)]
pub struct FlaggedTransfer {
    pub id: i64,
    pub from_user_id: i64,
    pub to_user_id: i64,
    pub from_owner: String,
    pub to_owner: String,
    pub amount: i64,
    pub status: TransferStatus,
    pub reason: String,
    pub created_at: i64,
}

/// A pending loan on the dashboard, with the applicant's name.
#[derive(Clone, Debug)]
pub struct AdminLoanRow {
    pub id: i64,
    pub user_id: i64,
    pub applicant_name: String,
    pub principal: i64,
    /// Annual rate in hundredths of a percent.
    pub rate_bp: u64,
    pub term_months: i32,
}

impl AdminLoanRow {
    /// The annual rate as a percentage, e.g. "5.25%".
    pub fn rate_pct(&self) -> (s: String)
        ensures
            s@ == rate_pct_spec(self.rate_bp as nat),
    {
        rate_pct(self.rate_bp)
    }
}

/// The dashboard's figures.
#[derive(Clone, Debug)]
pub struct DashboardSnapshot {
    pub active_accounts: i64,
    /// Cents held in active accounts.
    pub total_deposits: i128,
    /// What approved and active loans still owe, in cents.
    pub portfolio_outstanding: i128,
    pub pending_loans: usize,
    pub recent_transfers: Vec<AdminTransferRow>,
    pub flagged_transfers: Vec<FlaggedTransfer>,
    pub pending_loans_list: Vec<AdminLoanRow>,
}

/// A row of the parked-adjustments queue.
#[derive(Clone, Debug)]
pub struct AdjustmentRow {
    pub id: i64,
    pub account_id: i64,
    pub account_number: String,
    pub delta: i64,
    pub requested_by_name: String,
    pub requested_role: Role,
    pub requested_at: i64,
}

/// A row of the staff review queue: a held transfer with its review
/// request, if the customer filed one.
#[derive(Clone, Debug)]
pub struct HeldRow {
    pub id: i64,
    pub amount: i64,
    pub status_reason: Option<String>,
    pub created_at: i64,
    pub from_number: String,
    pub to_number: String,
    pub from_user_id: i64,
    pub from_owner: String,
    /// The identity number on the sender's profile.
    pub nric_on_file: Option<String>,
    pub to_owner: String,
    pub purpose: Option<String>,
    pub nric_claimed: Option<String>,
    pub submitted_at: Option<i64>,
}

} // verus!
