//! Money: amounts are whole cents held in an `i64`, the range of the
//! `NUMERIC(18,2)` columns the bank stores them in.
//!
//! Text is parsed with `rust_decimal` (the same grammar as the forms
//! accept) and rounded to cents half away from zero, as the database rounds
//! a value it stores; amounts are rendered the way `rust_decimal` displays
//! a two-decimal value ("1234.50", "-0.05").

use vstd::prelude::*;
use crate::text::{digit_char, digit_str, digits, push_digits, trim, trimmed};

verus! {

/// Largest magnitude, in cents, that a `NUMERIC(18,2)` column can hold.
pub const MAX_CENTS: i64 = 999_999_999_999_999_999;

/// An amount that a money column can hold.
pub open spec fn money_ok(c: int) -> bool {
    -MAX_CENTS <= c && c <= MAX_CENTS
}

/// `10^n`.
pub open spec fn pow10(n: nat) -> int
    decreases n,
{
    if n == 0 {
        1
    } else {
        10 * pow10((n - 1) as nat)
    }
}

/// `m / d` rounded to the nearest integer, ties away from zero.
pub open spec fn round_half_away(m: int, d: int) -> int {
    if m >= 0 {
        (m + d / 2) / d
    } else {
        -((-m + d / 2) / d)
    }
}

/// The amount in cents of the decimal `m / 10^scale`, rounded to cents
/// half away from zero.
pub open spec fn decimal_cents(m: int, scale: nat) -> int {
    if scale <= 2 {
        m * pow10((2 - scale) as nat)
    } else {
        round_half_away(m, pow10((scale - 2) as nat))
    }
}

/// The text of a non-negative amount of cents: whole units, a point, two digits.
pub open spec fn unsigned_money_text(u: nat) -> Seq<char> {
    digits(u / 100) + seq!['.', digit_char(((u % 100) / 10) as int), digit_char((u % 10) as int)]
}

/// The text of an amount of cents, as `rust_decimal` displays a value of scale 2.
pub open spec fn money_seq(c: int) -> Seq<char> {
    if c < 0 {
        seq!['-'] + unsigned_money_text((-c) as nat)
    } else {
        unsigned_money_text(c as nat)
    }
}

/// Renders an amount of cents ("30.00", "-0.05", "12500.00").
pub fn money_text(c: i64) -> (s: String)
    ensures
        s@ == money_seq(c as int),
{
    let mut s = String::new();
    let u: u64 = if c < 0 {
        proof {
            reveal_strlit("-");
        }
        s.append("-");
        (-(c as i128)) as u64
    } else {
        c as u64
    };
    push_digits(&mut s, u / 100);
    proof {
        reveal_strlit(".");
    }
    s.append(".");
    s.append(digit_str((u % 100) / 10));
    s.append(digit_str(u % 10));
    proof {
        assert(s@ =~= money_seq(c as int));
    }
    s
}

/// `$` followed by the amount, as messages quote money.
pub open spec fn dollars_seq(c: int) -> Seq<char> {
    seq!['$'] + money_seq(c)
}

/// Renders an amount of cents with a leading `$`.
pub fn dollars_text(c: i64) -> (s: String)
    ensures
        s@ == dollars_seq(c as int),
{
    let mut s = String::new();
    proof {
        reveal_strlit("$");
    }
    s.append("$");
    let m = money_text(c);
    s.append(m.as_str());
    proof {
        assert(s@ =~= dollars_seq(c as int));
    }
    s
}

/// What `rust_decimal` parses `s` to, as mantissa and scale; `None` when it
/// refuses the text.
pub uninterp spec fn decimal_from_str(s: Seq<char>) -> Option<(i128, u32)>;

/// The largest mantissa magnitude a `rust_decimal::Decimal` holds: `2^96 - 1`.
pub const DECIMAL_MAX_MANTISSA: i128 = 79_228_162_514_264_337_593_543_950_335;

/// Parses decimal text with `<rust_decimal::Decimal as FromStr>::from_str`
/// and returns its mantissa and scale. The contract claims that the result
/// is the crate's parse of the text, and that a parsed value has the
/// documented shape of every `Decimal`: a scale of at most 28 and a
/// mantissa below `2^96` in magnitude.
#[verifier::external_body]
fn parse_decimal(s: &str) -> (r: Option<(i128, u32)>)
    ensures
        r == decimal_from_str(s@),
        r matches Some((m, e)) ==> e <= 28 && -DECIMAL_MAX_MANTISSA <= m <= DECIMAL_MAX_MANTISSA,
{
    match <rust_decimal::Decimal as core::str::FromStr>::from_str(s) {
        Ok(d) => Some((d.mantissa(), d.scale())),
        Err(_) => None,
    }
}

/// `10^n` for small `n`.
fn pow10_i128(n: u32) -> (p: i128)
    requires
        n <= 28,
    ensures
        p == pow10(n as nat),
        1 <= p <= pow10(28),
{
    let mut p: i128 = 1;
    let mut i: u32 = 0;
    while i < n
        invariant
            i <= n <= 28,
            p == pow10(i as nat),
            1 <= p <= pow10(i as nat),
        decreases n - i,
    {
        proof {
            lemma_pow10_mono(i as nat, 28);
            lemma_pow10_28();
        }
        p = p * 10;
        i = i + 1;
    }
    proof {
        lemma_pow10_mono(n as nat, 28);
    }
    p
}

proof fn lemma_pow10_28()
    ensures
        pow10(28) == 10_000_000_000_000_000_000_000_000_000,
        pow10(27) == 1_000_000_000_000_000_000_000_000_000,
{
    reveal_with_fuel(pow10, 29);
}

proof fn lemma_pow10_mono(a: nat, b: nat)
    requires
        a <= b,
    ensures
        1 <= pow10(a) <= pow10(b),
    decreases b,
{
    if b > 0 {
        if a < b {
            lemma_pow10_mono(a, (b - 1) as nat);
        } else {
            lemma_pow10_mono((b - 1) as nat, (b - 1) as nat);
        }
    }
}

/// The amount of cents that `text` denotes: the text is trimmed, parsed as
/// a decimal and rounded to cents half away from zero. `None` when the text
/// is not a decimal or the amount does not fit a money column.
pub open spec fn parse_money_spec(text: Seq<char>) -> Option<i64> {
    match decimal_from_str(trimmed(text)) {
        Some((m, e)) => if money_ok(decimal_cents(m as int, e as nat)) {
            Some(decimal_cents(m as int, e as nat) as i64)
        } else {
            None
        },
        None => None,
    }
}

/// Reads an amount typed into a form ("25", "25.5", " 1_000.00 ").
pub fn parse_money(text: &str) -> (r: Option<i64>)
    ensures
        r == parse_money_spec(text@),
{
    let t = trim(text);
    match parse_decimal(t) {
        None => None,
        Some((m, e)) => {
            let cents: i128 = if e <= 2 {
                let f = pow10_i128(2 - e);
                proof {
                    reveal_with_fuel(pow10, 3);
                    assert(f <= 100);
                    assert(-DECIMAL_MAX_MANTISSA * 100 <= m * f <= DECIMAL_MAX_MANTISSA * 100)
                        by (nonlinear_arith)
                        requires
                            -DECIMAL_MAX_MANTISSA <= m <= DECIMAL_MAX_MANTISSA,
                            1 <= f <= 100,
                    ;
                }
                m * f
            } else {
                let d = pow10_i128(e - 2);
                proof {
                    lemma_pow10_mono(1, (e - 2) as nat);
                    reveal_with_fuel(pow10, 2);
                }
                if m >= 0 {
                    proof {
                        assert((m + d / 2) / (d as int) <= m + d / 2) by (nonlinear_arith)
                            requires
                                m >= 0,
                                d >= 1,
                        ;
                        assert((m + d / 2) / (d as int) >= 0) by (nonlinear_arith)
                            requires
                                m >= 0,
                                d >= 1,
                        ;
                    }
                    (m + d / 2) / d
                } else {
                    proof {
                        assert((-m + d / 2) / (d as int) <= -m + d / 2) by (nonlinear_arith)
                            requires
                                m < 0,
                                d >= 1,
                        ;
                        assert((-m + d / 2) / (d as int) >= 0) by (nonlinear_arith)
                            requires
                                m < 0,
                                d >= 1,
                        ;
                    }
                    -((-m + d / 2) / d)
                }
            };
            if -(MAX_CENTS as i128) <= cents && cents <= MAX_CENTS as i128 {
                Some(cents as i64)
            } else {
                None
            }
        },
    }
}

} // verus!
