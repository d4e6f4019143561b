//! Domain enums shared by every module, with their display labels, and the
//! user records' name helpers.

use vstd::prelude::*;
use crate::text::{ascii_lower, is_space, is_white_space, to_ascii_lower, trim, trimmed};

verus! {

/// A customer-facing account product.
#[derive(Clone, Copy, Debug, PartialEq, Eq, Structural)]
pub enum AccountType {
    Savings,
    Checking,
}

impl AccountType {
    pub open spec fn spec_label(self) -> Seq<char> {
        match self {
            AccountType::Savings => "Savings"@,
            AccountType::Checking => "Checking"@,
        }
    }

    /// Human-readable name of the product.
    pub fn label(&self) -> (s: &'static str)
        ensures
            s@ == self.spec_label(),
    {
        match self {
            AccountType::Savings => "Savings",
            AccountType::Checking => "Checking",
        }
    }

    /// The form value that selects a product ("savings" / "checking").
    pub fn from_form(kind: &str) -> (r: Option<AccountType>)
        ensures
            kind@ == "savings"@ ==> r == Some(AccountType::Savings),
            kind@ == "checking"@ ==> r == Some(AccountType::Checking),
            kind@ != "savings"@ && kind@ != "checking"@ ==> r is None,
    {
        proof {
            reveal_strlit("savings");
            reveal_strlit("checking");
            assert("savings"@[0] != "checking"@[0]);
        }
        if crate::text::same_text(kind, "savings") {
            Some(AccountType::Savings)
        } else if crate::text::same_text(kind, "checking") {
            Some(AccountType::Checking)
        } else {
            None
        }
    }
}

/// Lifecycle state of an account. Customer self-opened accounts start
/// `Pending` until a teller or admin approves them.
#[derive(Clone, Copy, Debug, PartialEq, Eq, Structural)]
pub enum AccountStatus {
    Pending,
    Active,
    Frozen,
    Closed,
}

impl AccountStatus {
    pub open spec fn spec_label(self) -> Seq<char> {
        match self {
            AccountStatus::Pending => "Pending"@,
            AccountStatus::Active => "Active"@,
            AccountStatus::Frozen => "Frozen"@,
            AccountStatus::Closed => "Closed"@,
        }
    }

    /// Human-readable name of the state.
    pub fn label(&self) -> (s: &'static str)
        ensures
            s@ == self.spec_label(),
    {
        match self {
            AccountStatus::Pending => "Pending",
            AccountStatus::Active => "Active",
            AccountStatus::Frozen => "Frozen",
            AccountStatus::Closed => "Closed",
        }
    }

    /// The label in lower case, as messages quote it ("frozen").
    pub fn lower_label(&self) -> (s: String)
        ensures
            s@ == ascii_lower(self.spec_label()),
    {
        to_ascii_lower(self.label())
    }
}

/// Lifecycle state of a loan.
#[derive(Clone, Copy, Debug, PartialEq, Eq, Structural)]
pub enum LoanStatus {
    Pending,
    Approved,
    Active,
    PaidOff,
    Rejected,
}

impl LoanStatus {
    pub open spec fn spec_label(self) -> Seq<char> {
        match self {
            LoanStatus::Pending => "Pending"@,
            LoanStatus::Approved => "Approved"@,
            LoanStatus::Active => "Active"@,
            LoanStatus::PaidOff => "Paid off"@,
            LoanStatus::Rejected => "Rejected"@,
        }
    }

    /// Human-readable name of the state.
    pub fn label(&self) -> (s: &'static str)
        ensures
            s@ == self.spec_label(),
    {
        match self {
            LoanStatus::Pending => "Pending",
            LoanStatus::Approved => "Approved",
            LoanStatus::Active => "Active",
            LoanStatus::PaidOff => "Paid off",
            LoanStatus::Rejected => "Rejected",
        }
    }

    /// The label in lower case, as messages quote it ("paid off").
    pub fn lower_label(&self) -> (s: String)
        ensures
            s@ == ascii_lower(self.spec_label()),
    {
        to_ascii_lower(self.label())
    }
}

/// Lifecycle state of a transfer.
#[derive(Clone, Copy, Debug, PartialEq, Eq, Structural)]
pub enum TransferStatus {
    /// Created but waiting on OTP confirmation.
    Pending,
    /// Money has moved.
    Completed,
    /// Failed for a technical reason.
    Failed,
    /// Refused for a business reason (insufficient funds, frozen account, ...).
    Rejected,
    /// Fraud rules tripped at confirm time; money has not moved and staff
    /// release or deny it after the customer files a review request.
    OnHold,
}

impl TransferStatus {
    pub open spec fn spec_label(self) -> Seq<char> {
        match self {
            TransferStatus::Pending => "Pending"@,
            TransferStatus::Completed => "Completed"@,
            TransferStatus::Failed => "Failed"@,
            TransferStatus::Rejected => "Rejected"@,
            TransferStatus::OnHold => "On hold"@,
        }
    }

    /// Human-readable name of the state.
    pub fn label(&self) -> (s: &'static str)
        ensures
            s@ == self.spec_label(),
    {
        match self {
            TransferStatus::Pending => "Pending",
            TransferStatus::Completed => "Completed",
            TransferStatus::Failed => "Failed",
            TransferStatus::Rejected => "Rejected",
            TransferStatus::OnHold => "On hold",
        }
    }

    /// The label in lower case, as messages quote it ("on hold").
    pub fn lower_label(&self) -> (s: String)
        ensures
            s@ == ascii_lower(self.spec_label()),
    {
        to_ascii_lower(self.label())
    }

    pub open spec fn spec_badge(self) -> Seq<char> {
        match self {
            TransferStatus::Completed => "bg-emerald-50 text-emerald-700 border-emerald-200"@,
            TransferStatus::Pending => "bg-amber-50 text-amber-700 border-amber-200"@,
            TransferStatus::Failed => "bg-stone-100 text-stone-600 border-stone-200"@,
            TransferStatus::Rejected => "bg-red-50 text-red-700 border-red-200"@,
            TransferStatus::OnHold => "bg-purple-50 text-purple-700 border-purple-200"@,
        }
    }

    /// Style classes for a status pill in the staff tables.
    pub fn badge(&self) -> (s: &'static str)
        ensures
            s@ == self.spec_badge(),
    {
        match self {
            TransferStatus::Completed => "bg-emerald-50 text-emerald-700 border-emerald-200",
            TransferStatus::Pending => "bg-amber-50 text-amber-700 border-amber-200",
            TransferStatus::Failed => "bg-stone-100 text-stone-600 border-stone-200",
            TransferStatus::Rejected => "bg-red-50 text-red-700 border-red-200",
            TransferStatus::OnHold => "bg-purple-50 text-purple-700 border-purple-200",
        }
    }
}

/// Who a user is to the bank. Admins are superusers of every staff area.
#[derive(Clone, Copy, Debug, PartialEq, Eq, Structural)]
pub enum Role {
    Customer,
    Teller,
    Admin,
}

impl Role {
    pub open spec fn spec_label(self) -> Seq<char> {
        match self {
            Role::Customer => "Customer"@,
            Role::Teller => "Teller"@,
            Role::Admin => "Admin"@,
        }
    }

    /// Human-readable name of the role.
    pub fn label(&self) -> (s: &'static str)
        ensures
            s@ == self.spec_label(),
    {
        match self {
            Role::Customer => "Customer",
            Role::Teller => "Teller",
            Role::Admin => "Admin",
        }
    }

    /// The label in lower case ("customer", "teller", "admin").
    pub fn lower_label(&self) -> (s: String)
        ensures
            s@ == ascii_lower(self.spec_label()),
    {
        to_ascii_lower(self.label())
    }

    /// Tellers and admins.
    pub open spec fn is_staff(self) -> bool {
        self != Role::Customer
    }
}

/// The words of `s` in the sense of `str::split_whitespace`: the first one.
pub open spec fn first_word(s: Seq<char>) -> Option<Seq<char>>
    decreases s.len(),
{
    if s.len() == 0 {
        None
    } else if is_white_space(s[0]) {
        first_word(s.drop_first())
    } else {
        Some(word_prefix(s))
    }
}

/// The longest prefix of `s` without white space.
pub open spec fn word_prefix(s: Seq<char>) -> Seq<char>
    decreases s.len(),
{
    if s.len() == 0 || is_white_space(s[0]) {
        Seq::empty()
    } else {
        seq![s[0]] + word_prefix(s.drop_first())
    }
}

/// The first white-space separated word of `s`, if any.
pub fn first_word_of(s: &str) -> (r: Option<String>)
    ensures
        r matches Some(w) ==> first_word(s@) == Some(w@),
        r is None ==> first_word(s@) is None,
{
    let n = s.unicode_len();
    let mut i: usize = 0;
    proof {
        assert(s@.subrange(0, n as int) =~= s@);
    }
    while i < n && is_space(s.get_char(i))
        invariant
            n == s@.len(),
            i <= n,
            first_word(s@) == first_word(s@.subrange(i as int, n as int)),
        decreases n - i,
    {
        proof {
            assert(s@.subrange(i as int, n as int).drop_first() =~= s@.subrange(i + 1, n as int));
        }
        i = i + 1;
    }
    if i == n {
        return None;
    }
    let mut j: usize = i;
    while j < n && !is_space(s.get_char(j))
        invariant
            n == s@.len(),
            i < n,
            i <= j <= n,
            !is_white_space(s@[i as int]),
            first_word(s@) == Some(word_prefix(s@.subrange(i as int, n as int))),
            word_prefix(s@.subrange(i as int, n as int)) == s@.subrange(i as int, j as int)
                + word_prefix(s@.subrange(j as int, n as int)),
        decreases n - j,
    {
        proof {
            let rest = s@.subrange(j as int, n as int);
            assert(rest.drop_first() =~= s@.subrange(j + 1, n as int));
            assert(s@.subrange(i as int, j as int) + seq![s@[j as int]] =~= s@.subrange(
                i as int,
                j + 1,
            ));
        }
        j = j + 1;
    }
    proof {
        assert(s@.subrange(i as int, j as int) + word_prefix(s@.subrange(j as int, n as int))
            =~= s@.subrange(i as int, j as int));
    }
    let w = s.substring_char(i, j);
    Some(w.to_owned())
}

/// A registered user, as the rules read it.
#[derive(Clone, Debug)]
pub struct User {
    pub id: i64,
    pub email: String,
    /// Denormalized display name ("First [Middle] Last").
    pub full_name: String,
    /// Structured first name; `None` for rows created before names were split.
    pub first_name: Option<String>,
    pub role: Role,
}

/// The greeting name: the first name, else the first word of the full
/// name, else "there".
pub open spec fn given_name_spec(first_name: Option<Seq<char>>, full_name: Seq<char>) -> Seq<char> {
    match first_name {
        Some(f) => f,
        None => match first_word(full_name) {
            Some(w) => w,
            None => "there"@,
        },
    }
}

impl User {
    /// The name to greet the user with.
    pub fn given_name(&self) -> (s: String)
        ensures
            s@ == given_name_spec(
                match self.first_name {
                    Some(f) => Some(f@),
                    None => None,
                },
                self.full_name@,
            ),
    {
        match &self.first_name {
            Some(f) => f.clone(),
            None => match first_word_of(self.full_name.as_str()) {
                Some(w) => w,
                None => "there".to_owned(),
            },
        }
    }
}

/// Input of a registration.
#[derive(Clone, Debug)]
pub struct NewUser {
    pub email: String,
    pub password: String,
    pub first_name: String,
    pub middle_name: Option<String>,
    pub last_name: String,
    /// National ID, kept for identity checks during fraud reviews.
    pub nric: Option<String>,
    pub role: Role,
}

/// The display name assembled from name parts: first, the middle name when
/// it is not blank, and last, each trimmed and separated by single spaces.
pub open spec fn full_name_spec(first: Seq<char>, middle: Option<Seq<char>>, last: Seq<char>) -> Seq<char> {
    match middle {
        Some(m) if trimmed(m).len() > 0 => trimmed(first) + seq![' '] + trimmed(m) + seq![' ']
            + trimmed(last),
        _ => trimmed(first) + seq![' '] + trimmed(last),
    }
}

impl NewUser {
    /// Display name assembled from the structured parts.
    pub fn full_name(&self) -> (s: String)
        ensures
            s@ == full_name_spec(
                self.first_name@,
                match self.middle_name {
                    Some(m) => Some(m@),
                    None => None,
                },
                self.last_name@,
            ),
    {
        proof {
            reveal_strlit(" ");
        }
        let mut s = trim(self.first_name.as_str()).to_owned();
        match &self.middle_name {
            Some(m) => {
                let tm = trim(m.as_str());
                if tm.unicode_len() > 0 {
                    s.append(" ");
                    s.append(tm);
                }
            },
            None => {},
        }
        s.append(" ");
        s.append(trim(self.last_name.as_str()));
        s
    }
}

} // verus!
