//! One-time codes and random numbers.
//!
//! Every sensitive action is confirmed with a six-digit code. A code is
//! stored only as an argon2 hash (PHC string), compared by argon2 when the
//! user types it, and is single-use, owner-bound, valid for ten minutes and
//! allows three wrong tries: the third wrong code cancels the action.

use vstd::prelude::*;
use argon2::password_hash::rand_core::OsRng;
use argon2::password_hash::{PasswordHash, PasswordHasher, PasswordVerifier, SaltString};
use argon2::Argon2;
use rand::Rng;
use crate::errors::{AppError, ErrorKind};
use crate::text::{digits, int_text, padded_digits, push_digits, push_padded_digits, trim, trimmed};
use crate::transfer::CodeCheck;

verus! {

/// A code stays valid for ten minutes, in microseconds.
pub const OTP_TTL_MICROS: i64 = 600_000_000;
/// The third wrong code cancels the action.
pub const MAX_OTP_ATTEMPTS: i32 = 3;
/// Codes run from `000000` to `999999`.
pub const CODE_SPACE: u64 = 1_000_000;

// ── The outside calls ───────────────────────────────────────────────

/// What argon2 answers for `plain` against the PHC string `phc`: `None`
/// when `phc` does not parse as a PHC string, else whether the password
/// verifies against it.
pub uninterp spec fn argon2_verifies(plain: Seq<char>, phc: Seq<char>) -> Option<bool>;

/// Parses `phc` with `PasswordHash::new` and checks `plain` against it
/// with `Argon2::default().verify_password`. The contract names the
/// answer; parse and verification depend on the two strings alone.
#[verifier::external_body]
pub(crate) fn argon2_check(plain: &str, phc: &str) -> (r: Option<bool>)
    ensures
        r == argon2_verifies(plain@, phc@),
{
    match PasswordHash::new(phc) {
        Ok(parsed) => Some(Argon2::default().verify_password(plain.as_bytes(), &parsed).is_ok()),
        Err(_) => None,
    }
}

/// Hashes `plain` with `Argon2::default().hash_password` under a salt
/// from `SaltString::generate(&mut OsRng)` and renders the PHC string.
/// The salt is random, so the string is not stated; the contract claims
/// what holds of every outcome: the password verifies against the hash it
/// produced, and hashing succeeds for a password of fewer than a billion
/// characters (under default parameters and a generated 16-byte salt,
/// `hash_password` fails only for a password longer than `0xFFFFFFFF`
/// bytes). `None` when hashing fails.
#[verifier::external_body]
pub(crate) fn argon2_hash(plain: &str) -> (r: Option<String>)
    ensures
        r matches Some(h) ==> argon2_verifies(plain@, h@) == Some(true),
        plain@.len() < 1_000_000_000 ==> r is Some,
{
    let salt = SaltString::generate(&mut OsRng);
    match Argon2::default().hash_password(plain.as_bytes(), &salt) {
        Ok(h) => Some(h.to_string()),
        Err(_) => None,
    }
}

/// A random number in `lo..=hi` from `rand::thread_rng().gen_range`,
/// which panics on an empty range. Only the range is claimed.
#[verifier::external_body]
fn random_between(lo: u64, hi: u64) -> (r: u64)
    requires
        lo <= hi,
    ensures
        lo <= r <= hi,
{
    rand::thread_rng().gen_range(lo..=hi)
}

// ── Codes ───────────────────────────────────────────────────────────

/// Whether `s` is a six-digit code.
pub open spec fn is_code(s: Seq<char>) -> bool {
    exists|n: nat| n < CODE_SPACE && s == padded_digits(n, 6)
}

/// A code has six characters.
pub proof fn lemma_code_len(c: Seq<char>)
    requires
        is_code(c),
    ensures
        c.len() == 6,
{
    let n = choose|n: nat| n < CODE_SPACE && c == padded_digits(n, 6);
    crate::text::lemma_padded_digits_shape(n, 6);
}

/// A fresh random six-digit code, zero-padded.
pub fn new_code() -> (c: String)
    ensures
        is_code(c@),
{
    let n = random_between(0, CODE_SPACE - 1);
    let mut c = String::new();
    push_padded_digits(&mut c, n, 6);
    proof {
        assert(c@ == padded_digits(n as nat, 6));
    }
    c
}

/// A fresh ten-digit account number, from 1000000000 to 9999999999.
pub fn new_account_number() -> (n: u64)
    ensures
        1_000_000_000 <= n <= 9_999_999_999,
{
    random_between(1_000_000_000, 9_999_999_999)
}

/// Hashes a code (or password) for storage. The code verifies against the
/// hash; hashing succeeds for any text of fewer than a billion characters.
pub fn hash_code(code: &str) -> (r: Result<String, AppError>)
    ensures
        r matches Ok(h) ==> argon2_verifies(code@, h@) == Some(true),
        code@.len() < 1_000_000_000 ==> r is Ok,
        r matches Err(e) ==> e@ == (ErrorKind::Internal, "password processing failed"@),
{
    match argon2_hash(code) {
        Some(h) => Ok(h),
        None => Err(AppError::Internal("password processing failed".to_owned())),
    }
}

/// How a typed code compares with a stored hash.
pub open spec fn code_check_spec(stored: Option<Seq<char>>, typed: Seq<char>) -> CodeCheck {
    match stored {
        None => CodeCheck::NoHash,
        Some(h) => match argon2_verifies(typed, h) {
            None => CodeCheck::BadHash,
            Some(false) => CodeCheck::Mismatch,
            Some(true) => CodeCheck::Match,
        },
    }
}

/// Compares a typed code with the stored hash.
pub fn code_check(stored: Option<&str>, typed: &str) -> (r: CodeCheck)
    ensures
        r == code_check_spec(
            match stored {
                Some(h) => Some(h@),
                None => None,
            },
            typed@,
        ),
{
    match stored {
        None => CodeCheck::NoHash,
        Some(h) => match argon2_check(typed, h) {
            None => CodeCheck::BadHash,
            Some(false) => CodeCheck::Mismatch,
            Some(true) => CodeCheck::Match,
        },
    }
}

} // verus!
