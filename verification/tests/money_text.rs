use ferrobank::models::{AccountStatus, AccountType, LoanStatus, NewUser, Role, TransferStatus};
use ferrobank::money::{dollars_text, money_text, parse_money, MAX_CENTS};
use ferrobank::text::{contains, i64_text, same_text, starts_with, to_ascii_lower, trim, u64_text};

#[test]
fn money_parses_to_cents() {
    assert_eq!(parse_money("25.00"), Some(2_500));
    assert_eq!(parse_money("  10 "), Some(1_000));
    assert_eq!(parse_money("0.005"), Some(1));
    assert_eq!(parse_money("-0.005"), Some(-1));
    assert_eq!(parse_money("1.234"), Some(123));
    assert_eq!(parse_money("-12.5"), Some(-1_250));
    assert_eq!(parse_money("abc"), None);
    assert_eq!(parse_money(""), None);
    assert_eq!(parse_money("99999999999999999999"), None);
}

#[test]
fn money_renders_with_two_decimals() {
    assert_eq!(money_text(3_000), "30.00");
    assert_eq!(money_text(5), "0.05");
    assert_eq!(money_text(-5), "-0.05");
    assert_eq!(money_text(123_450), "1234.50");
    assert_eq!(dollars_text(3_000), "$30.00");
    assert_eq!(money_text(MAX_CENTS), "9999999999999999.99");
}

#[test]
fn labels_and_text() {
    assert_eq!(AccountType::Savings.label(), "Savings");
    assert_eq!(AccountType::from_form("checking"), Some(AccountType::Checking));
    assert_eq!(AccountType::from_form("gold"), None);
    assert_eq!(AccountStatus::Frozen.label(), "Frozen");
    assert_eq!(LoanStatus::PaidOff.label(), "Paid off");
    assert_eq!(LoanStatus::PaidOff.lower_label(), "paid off");
    assert_eq!(TransferStatus::OnHold.label(), "On hold");
    assert_eq!(TransferStatus::Completed.badge(), "bg-emerald-50 text-emerald-700 border-emerald-200");
    assert_eq!(Role::Admin.lower_label(), "admin");
    assert_eq!(to_ascii_lower("MiXeD Ünï"), "mixed Ünï");
    assert_eq!(trim("\t hi there \n"), "hi there");
    assert!(contains("insufficient funds: balance", "funds"));
    assert!(!contains("abc", "abcd"));
    assert!(starts_with("/settings/telegram", "/settings"));
    assert!(same_text("a", "a"));
    assert_eq!(i64_text(-42), "-42");
    assert_eq!(u64_text(0), "0");
    let u = NewUser {
        email: "x@y.z".into(),
        password: "p".into(),
        first_name: " Mary ".into(),
        middle_name: Some(" Ann ".into()),
        last_name: " Lee".into(),
        nric: None,
        role: Role::Customer,
    };
    assert_eq!(u.full_name(), "Mary Ann Lee");
}
