//! Reading the values the bank's forms submit: account products, amounts,
//! rates and terms, each with the message a page shows when the value does
//! not read.

use vstd::prelude::*;
use crate::config::{all_digits, is_digit, number_of};
use crate::errors::{AppError, ErrorKind};
use crate::models::{AccountType, Role};
use crate::money::{parse_money, parse_money_spec};
use crate::text::{trim, trimmed};

verus! {

/// The product a customer's new-account form selects.
pub fn customer_account_kind(kind: &str) -> (r: Result<AccountType, String>)
    ensures
        kind@ == "savings"@ ==> r == Ok::<AccountType, String>(AccountType::Savings),
        kind@ == "checking"@ ==> r == Ok::<AccountType, String>(AccountType::Checking),
        kind@ != "savings"@ && kind@ != "checking"@ ==> (r matches Err(m) && m@ == "Please choose Savings or Checking."@),
{
    match AccountType::from_form(kind) {
        Some(k) => Ok(k),
        None => Err("Please choose Savings or Checking.".to_owned()),
    }
}

/// The checks when staff open an account for user `target` (whose role is
/// `target_role`, `None` when no such user exists): a known product, an
/// existing user, and a customer.
pub open spec fn staff_open_spec(kind: Seq<char>, target_role: Option<Role>) -> Result<AccountType, (ErrorKind, Seq<char>)> {
    if kind != "savings"@ && kind != "checking"@ {
        Err((ErrorKind::BadRequest, "choose savings or checking"@))
    } else {
        match target_role {
            None => Err((ErrorKind::BadRequest, "that user does not exist"@)),
            Some(r) => if r != Role::Customer {
                Err((ErrorKind::BadRequest, "accounts can only be opened for customers"@))
            } else if kind == "savings"@ {
                Ok(AccountType::Savings)
            } else {
                Ok(AccountType::Checking)
            },
        }
    }
}

/// Checks a staff request to open an account: only customers hold
/// accounts.
pub fn staff_open_check(kind: &str, target_role: Option<Role>) -> (r: Result<AccountType, AppError>)
    ensures
        match r {
            Ok(k) => staff_open_spec(kind@, target_role) == Ok::<AccountType, (ErrorKind, Seq<char>)>(k),
            Err(e) => staff_open_spec(kind@, target_role) == Err::<AccountType, (ErrorKind, Seq<char>)>(e@),
        },
{
    let k = match AccountType::from_form(kind) {
        Some(k) => k,
        None => return Err(AppError::BadRequest("choose savings or checking".to_owned())),
    };
    match target_role {
        None => Err(AppError::BadRequest("that user does not exist".to_owned())),
        Some(r) => if r != Role::Customer {
            Err(AppError::BadRequest("accounts can only be opened for customers".to_owned()))
        } else {
            Ok(k)
        },
    }
}

/// An amount typed into a form, in cents, or `msg` when it does not read.
pub open spec fn amount_or(text: Seq<char>, msg: Seq<char>) -> Result<i64, Seq<char>> {
    match parse_money_spec(text) {
        Some(c) => Ok(c),
        None => Err(msg),
    }
}

/// Reads an amount, or answers `msg`.
fn read_amount(text: &str, msg: &str) -> (r: Result<i64, String>)
    ensures
        match r {
            Ok(c) => amount_or(text@, msg@) == Ok::<i64, Seq<char>>(c),
            Err(m) => amount_or(text@, msg@) == Err::<i64, Seq<char>>(m@),
        },
{
    match parse_money(text) {
        Some(c) => Ok(c),
        None => Err(msg.to_owned()),
    }
}

/// A transfer amount from the transfer form.
pub fn transfer_amount(text: &str) -> (r: Result<i64, String>)
    ensures
        match r {
            Ok(c) => amount_or(text@, "Amount must be a number like 25.00."@) == Ok::<i64, Seq<char>>(c),
            Err(m) => amount_or(text@, "Amount must be a number like 25.00."@) == Err::<i64, Seq<char>>(m@),
        },
{
    read_amount(text, "Amount must be a number like 25.00.")
}

/// A repayment amount from the loan page.
pub fn repayment_amount(text: &str) -> (r: Result<i64, String>)
    ensures
        match r {
            Ok(c) => amount_or(text@, "Repayment must be a number like 100.00."@) == Ok::<i64, Seq<char>>(c),
            Err(m) => amount_or(text@, "Repayment must be a number like 100.00."@) == Err::<i64, Seq<char>>(m@),
        },
{
    read_amount(text, "Repayment must be a number like 100.00.")
}

/// A loan principal from the application form.
pub fn loan_principal(text: &str) -> (r: Result<i64, String>)
    ensures
        match r {
            Ok(c) => amount_or(text@, "Principal must be a number like 5000.00."@) == Ok::<i64, Seq<char>>(c),
            Err(m) => amount_or(text@, "Principal must be a number like 5000.00."@) == Err::<i64, Seq<char>>(m@),
        },
{
    read_amount(text, "Principal must be a number like 5000.00.")
}

/// An annual rate typed as a percentage ("5.25"), in hundredths of a
/// percent (525).
pub fn loan_rate_bp(text: &str) -> (r: Result<i64, String>)
    ensures
        match r {
            Ok(c) => amount_or(text@, "Interest rate must be a number like 5.25."@) == Ok::<i64, Seq<char>>(c),
            Err(m) => amount_or(text@, "Interest rate must be a number like 5.25."@) == Err::<i64, Seq<char>>(m@),
        },
{
    read_amount(text, "Interest rate must be a number like 5.25.")
}

/// A staff balance adjustment, which may be negative.
pub fn adjustment_delta(text: &str) -> (r: Result<i64, AppError>)
    ensures
        match r {
            Ok(c) => parse_money_spec(text@) == Some(c),
            Err(e) => parse_money_spec(text@) is None && e@ == (ErrorKind::BadRequest, "adjustment must be a number like 50.00 or -50.00"@),
        },
{
    match parse_money(text) {
        Some(c) => Ok(c),
        None => Err(AppError::BadRequest("adjustment must be a number like 50.00 or -50.00".to_owned())),
    }
}

/// A new per-transfer limit: a positive amount.
pub fn new_limit(text: &str) -> (r: Result<i64, String>)
    ensures
        match r {
            Ok(c) => parse_money_spec(text@) == Some(c) && c > 0,
            Err(m) => !(parse_money_spec(text@) matches Some(c) && c > 0) && m@ == "The limit must be a positive number like 8000.00."@,
        },
{
    match parse_money(text) {
        Some(c) => if c > 0 {
            Ok(c)
        } else {
            Err("The limit must be a positive number like 8000.00.".to_owned())
        },
        None => Err("The limit must be a positive number like 8000.00.".to_owned()),
    }
}

/// `s` without a leading sign.
pub open spec fn signless(s: Seq<char>) -> Seq<char> {
    if s.len() > 0 && (s[0] == '-' || s[0] == '+') {
        s.drop_first()
    } else {
        s
    }
}

/// What `i32::from_str` makes of `s`: an optional sign then one or more
/// digits whose value fits in 32 bits.
pub open spec fn int32_of(s: Seq<char>) -> Option<int> {
    let neg = s.len() > 0 && s[0] == '-';
    let d = signless(s);
    if d.len() > 0 && all_digits(d) {
        let v = if neg {
            -number_of(d)
        } else {
            number_of(d)
        };
        if i32::MIN <= v <= i32::MAX {
            Some(v)
        } else {
            None
        }
    } else {
        None
    }
}

/// A loan term in months, as the form's whole number (after trimming).
pub fn loan_term(text: &str) -> (r: Result<i32, String>)
    ensures
        match r {
            Ok(t) => int32_of(trimmed(text@)) == Some(t as int),
            Err(m) => int32_of(trimmed(text@)) is None && m@ == "Term must be a whole number of months."@,
        },
{
    let s = trim(text);
    let n = s.unicode_len();
    let neg = n > 0 && s.get_char(0) == '-';
    let start: usize = if n > 0 && (s.get_char(0) == '-' || s.get_char(0) == '+') {
        1
    } else {
        0
    };
    let ghost d = signless(s@);
    proof {
        assert(d =~= s@.subrange(start as int, n as int));
    }
    if start >= n {
        return Err("Term must be a whole number of months.".to_owned());
    }
    let mut v: i64 = 0;
    let mut i: usize = start;
    while i < n
        invariant
            start <= i <= n,
            n == s@.len(),
            s@ == trimmed(text@),
            d == signless(s@),
            d == s@.subrange(start as int, n as int),
            forall|k: int| start <= k < i ==> is_digit(#[trigger] s@[k]),
            v == number_of(s@.subrange(start as int, i as int)),
            0 <= v <= 2_147_483_648,
        decreases n - i,
    {
        let c = s.get_char(i);
        proof {
            assert(s@.subrange(start as int, i + 1).drop_last() =~= s@.subrange(start as int, i as int));
        }
        if !('0' <= c && c <= '9') {
            proof {
                assert(d[i - start] == c);
                assert(!all_digits(d));
            }
            return Err("Term must be a whole number of months.".to_owned());
        }
        let next = v * 10 + (c as u32 - '0' as u32) as i64;
        if next > 2_147_483_648 {
            proof {
                let p = s@.subrange(start as int, i + 1);
                assert(p.last() == c);
                if all_digits(d) {
                    crate::config::lemma_prefix_number_le(d, i + 1 - start);
                    assert(d.subrange(0, i + 1 - start) =~= p);
                }
            }
            return Err("Term must be a whole number of months.".to_owned());
        }
        v = next;
        i = i + 1;
    }
    proof {
        assert(s@.subrange(start as int, n as int) =~= d);
        assert forall|k: int| 0 <= k < d.len() implies is_digit(#[trigger] d[k]) by {
            assert(d[k] == s@[start + k]);
        }
        assert(all_digits(d));
    }
    if neg {
        Ok((-v) as i32)
    } else if v <= 2_147_483_647 {
        Ok(v as i32)
    } else {
        Err("Term must be a whole number of months.".to_owned())
    }
}

/// The race demonstration's inputs: a positive amount, one to ten tasks,
/// and two different accounts.
pub open spec fn race_check_spec(amount: Option<i64>, tasks: int, from: int, to: int) -> Result<i64, Seq<char>> {
    match amount {
        Some(a) if a > 0 => if !(1 <= tasks <= 10) || from == to {
            Err("Use 1-10 tasks and two different accounts."@)
        } else {
            Ok(a)
        },
        _ => Err("Amount must be a positive number like 10.00."@),
    }
}

/// Checks the race demonstration's inputs.
pub fn race_check(amount_text: &str, tasks: i64, from: i64, to: i64) -> (r: Result<i64, String>)
    ensures
        match r {
            Ok(a) => race_check_spec(parse_money_spec(amount_text@), tasks as int, from as int, to as int) == Ok::<i64, Seq<char>>(a),
            Err(m) => race_check_spec(parse_money_spec(amount_text@), tasks as int, from as int, to as int) == Err::<i64, Seq<char>>(m@),
        },
{
    match parse_money(amount_text) {
        Some(a) if a > 0 => if !(1 <= tasks && tasks <= 10) || from == to {
            Err("Use 1-10 tasks and two different accounts.".to_owned())
        } else {
            Ok(a)
        },
        _ => Err("Amount must be a positive number like 10.00.".to_owned()),
    }
}

} // verus!
