use ferrobank::bank::{Bank, RaceOutcome};
use ferrobank::effects::{Detail, Effects, Event, Notice};
use ferrobank::ledger::Ledger;
use ferrobank::models::{AccountType, Role, TransferStatus};
use ferrobank::security::Origins;
use ferrobank::session::{sign_in_gate, SignInGate};
use ferrobank::telegram::{Links, ScreenOtp};

const T0: i64 = 1_700_000_000_000_000;
const MINUTE: i64 = 60_000_000;
const LIMIT: i64 = 500_000;

fn rig(cents: i64) -> (Bank, i64, i64) {
    let mut bank = Bank::new();
    let from = bank.ledger.open_account(1, AccountType::Checking, true, LIMIT, 43_200).unwrap();
    let to = bank.ledger.open_account(2, AccountType::Checking, true, LIMIT, 43_200).unwrap();
    if cents > 0 {
        bank.ledger.adjust_balance(from, cents).unwrap();
    }
    (bank, from, to)
}

fn num(e: &Event, key: &str) -> Option<i64> {
    e.fields.iter().find(|f| f.key == key).and_then(|f| match &f.value {
        Detail::Num(n) => Some(*n),
        _ => None,
    })
}

fn text(e: &Event, key: &str) -> Option<String> {
    e.fields.iter().find(|f| f.key == key).and_then(|f| match &f.value {
        Detail::Text(s) => Some(s.clone()),
        _ => None,
    })
}

#[test]
fn a_completed_transfer_is_audited_and_both_parties_are_told() {
    let (mut bank, from, to) = rig(5_000);
    let mut fx = Effects::new();
    let c = bank.create_transfer(1, Role::Customer, from, to, 1_000, None, T0, &ScreenOtp, &mut fx).ok().unwrap();
    assert!(!c.otp_delivered);
    assert_eq!(fx.events.len(), 1);
    assert_eq!(fx.events[0].name, "transfer.created");
    assert_eq!(num(&fx.events[0], "transfer_id"), Some(c.transfer_id));
    assert_eq!(text(&fx.events[0], "amount").as_deref(), Some("10.00"));
    let mut fx = Effects::new();
    assert_eq!(bank.ledger.confirm_typed(1, c.transfer_id, T0 + 1, &c.otp, &mut fx).unwrap(), TransferStatus::Completed);
    assert_eq!(fx.events.len(), 1);
    let e = &fx.events[0];
    assert_eq!(e.name, "transfer.completed");
    assert_eq!(e.actor, Some(1));
    assert_eq!(num(e, "from_account_id"), Some(from));
    assert_eq!(num(e, "to_account_id"), Some(to));
    assert_eq!(fx.notices.len(), 2);
    assert!(matches!(fx.notices[0], Notice::Sent { user: 1, amount: 1_000, recipient: 2 }));
    assert!(matches!(fx.notices[1], Notice::Received { user: 2, amount: 1_000, sender: 1 }));
    assert_eq!(fx.notices[0].text(Some("Bob Lim")), "Your transfer of $10.00 to Bob Lim completed.");
    assert_eq!(fx.notices[1].text(None), "You received $10.00 from another customer.");
    assert_eq!(fx.notices[1].user(), 2);
    assert_eq!(fx.notices[1].named_user(), Some(1));
}

#[test]
fn a_held_transfer_tells_the_sender_and_a_denial_records_who_decided() {
    let (mut bank, from, to) = rig(2_000_000);
    bank.ledger.request_limit_change(from, 2_000_000, T0 - 13 * 60 * MINUTE).unwrap();
    let c = bank.create_transfer(1, Role::Customer, from, to, 1_000_000, None, T0, &ScreenOtp, &mut Effects::new()).ok().unwrap();
    let mut fx = Effects::new();
    assert_eq!(bank.ledger.confirm_typed(1, c.transfer_id, T0 + 1, &c.otp, &mut fx).unwrap(), TransferStatus::OnHold);
    assert_eq!(fx.events[0].name, "transfer.held");
    assert_eq!(fx.notices.len(), 1);
    assert!(matches!(&fx.notices[0], Notice::Held { user: 1, amount: 1_000_000, .. }));
    assert!(fx.notices[0].text(None).starts_with("Your current transfer of $10000.00 is ON HOLD ("));
    let mut fx = Effects::new();
    bank.ledger.deny(c.transfer_id, 9, "identity not confirmed", &mut fx).unwrap();
    assert_eq!(fx.events[0].name, "transfer.denied");
    assert_eq!(fx.events[0].actor, Some(9));
    assert_eq!(text(&fx.events[0], "reason").as_deref(), Some("identity not confirmed"));
    assert_eq!(fx.notices[0].text(None), "Your held transfer of $10000.00 was denied after review: identity not confirmed");
    // A second denial is refused and announces nothing.
    let mut fx = Effects::new();
    assert!(bank.ledger.deny(c.transfer_id, 9, "again", &mut fx).is_err());
    assert!(fx.events.is_empty() && fx.notices.is_empty());
}

#[test]
fn a_release_is_audited_by_who_decided_and_tells_both_parties() {
    let (mut bank, from, to) = rig(2_000_000);
    bank.ledger.request_limit_change(from, 2_000_000, T0 - 13 * 60 * MINUTE).unwrap();
    let c = bank.create_transfer(1, Role::Customer, from, to, 1_250_000, None, T0, &ScreenOtp, &mut Effects::new()).ok().unwrap();
    bank.ledger.confirm_typed(1, c.transfer_id, T0 + 1, &c.otp, &mut Effects::new()).unwrap();
    bank.ledger.submit_review(1, c.transfer_id, "buying a car", "S1234567A", &mut Effects::new()).unwrap();
    let mut fx = Effects::new();
    bank.ledger.release(c.transfer_id, 7, &mut fx).unwrap();
    assert_eq!(fx.events.len(), 1);
    assert_eq!(fx.events[0].name, "transfer.released");
    assert_eq!(fx.events[0].actor, Some(7));
    assert!(matches!(fx.notices[0], Notice::Released { user: 1, amount: 1_250_000, recipient: 2 }));
    assert!(matches!(fx.notices[1], Notice::Received { user: 2, amount: 1_250_000, sender: 1 }));
    assert_eq!(
        fx.notices[0].text(Some("Bob Lim")),
        "Good news - your held transfer of $12500.00 to Bob Lim was reviewed and released."
    );
}

#[test]
fn the_third_overdraft_in_a_day_is_audited_and_announced() {
    let (mut bank, from, to) = rig(1_000);
    for k in 0..2 {
        let mut fx = Effects::new();
        assert!(bank.create_transfer(1, Role::Customer, from, to, 5_000, None, T0 + k, &ScreenOtp, &mut fx).is_err());
        assert_eq!(fx.events.len(), 1);
        assert_eq!(fx.events[0].name, "transfer.rejected");
        assert_eq!(text(&fx.events[0], "reason").as_deref(), Some("insufficient funds (pre-check)"));
        assert_eq!(text(&fx.events[0], "amount").as_deref(), Some("50.00"));
    }
    let mut fx = Effects::new();
    assert!(bank.create_transfer(1, Role::Customer, from, to, 5_000, None, T0 + 2, &ScreenOtp, &mut fx).is_err());
    assert_eq!(fx.events.len(), 2);
    assert_eq!(fx.events[1].name, "account.frozen.suspected_hijack");
    assert_eq!(num(&fx.events[1], "account_id"), Some(from));
    assert_eq!(num(&fx.events[1], "overdraft_attempts"), Some(3));
    assert!(matches!(fx.notices[0], Notice::Frozen { user: 1 }));
    assert_eq!(
        fx.notices[0].text(None),
        "Your account was frozen after repeated attempts to transfer more than its balance. Contact the bank to unfreeze it."
    );
}

#[test]
fn unlink_and_new_origin_are_audited() {
    let mut links = Links::new();
    links.add_user(1, "Alice Tan".to_string());
    links.set_link_code(0, "code-1".to_string());
    links.start(555, "code-1");
    let mut fx = Effects::new();
    let (_, users) = links.unlink(555, T0, &mut fx);
    assert_eq!(users, vec![1]);
    assert_eq!(fx.events.len(), 1);
    assert_eq!(fx.events[0].name, "telegram.unlink_scheduled");
    assert_eq!(fx.events[0].actor, Some(1));
    assert_eq!(num(&fx.events[0], "chat_id"), Some(555));

    let mut o = Origins::new();
    let mut fx = Effects::new();
    o.record_login_session(1, "Mozilla/5.0 Chrome/120.0", "10.0.0.1", T0, &mut fx);
    assert!(fx.events.is_empty());
    o.record_login_session(1, "Mozilla/5.0 Firefox/121.0", "10.0.0.1", T0 + 1, &mut fx);
    assert_eq!(fx.events.len(), 1);
    assert_eq!(fx.events[0].name, "auth.login.new_origin");
    assert_eq!(text(&fx.events[0], "browser").as_deref(), Some("Firefox"));
    assert_eq!(text(&fx.events[0], "ip").as_deref(), Some("10.0.0.1"));
}

#[test]
fn an_account_number_in_use_is_not_given_again() {
    let mut l = Ledger::new();
    assert_eq!(l.open_with_number(1, AccountType::Checking, true, LIMIT, 43_200, 1_234_567_890), Some(1));
    assert_eq!(l.open_with_number(2, AccountType::Savings, true, LIMIT, 43_200, 1_234_567_890), None);
    assert_eq!(l.account_count(), 1);
    assert_eq!(l.open_with_number(2, AccountType::Savings, false, LIMIT, 43_200, 1_234_567_891), Some(2));
    assert_eq!(l.account(2).unwrap().number, 1_234_567_891);
}

#[test]
fn history_rows_show_direction_counterparty_and_reason() {
    let (mut bank, from, to) = rig(1_000);
    let c = bank.create_transfer(1, Role::Customer, from, to, 500, Some("lunch".to_string()), T0, &ScreenOtp, &mut Effects::new()).ok().unwrap();
    bank.ledger.confirm_typed(1, c.transfer_id, T0 + 1, &c.otp, &mut Effects::new()).unwrap();
    let out = bank.ledger.history_row(1, c.transfer_id).unwrap();
    assert!(out.outgoing);
    assert_eq!(out.own_account_id, from);
    assert_eq!(out.counterparty_account_id, to);
    assert_eq!(out.counterparty_owner, Some(2));
    assert_eq!(out.note.as_deref(), Some("lunch"));
    assert_eq!(out.reason, None);
    let inc = bank.ledger.history_row(2, c.transfer_id).unwrap();
    assert!(!inc.outgoing);
    assert_eq!(inc.counterparty_account_id, from);
    assert!(bank.ledger.history_row(3, c.transfer_id).is_none());
    assert!(bank.ledger.history_row(1, 99).is_none());
    // An expired transfer is rejected with its own reason.
    let d = bank.create_transfer(1, Role::Customer, from, to, 100, None, T0 + 2, &ScreenOtp, &mut Effects::new()).ok().unwrap();
    let _ = bank.ledger.confirm_typed(1, d.transfer_id, T0 + 11 * MINUTE, &d.otp, &mut Effects::new());
    assert_eq!(bank.ledger.history_row(1, d.transfer_id).unwrap().reason.as_deref(), Some("confirmation window expired"));
}

#[test]
fn race_tasks_carry_their_number_and_leave_the_bank_limiter_alone() {
    let (mut bank, from, to) = rig(3_000);
    let mut fx = Effects::new();
    let outcomes = bank.race_demo(1, from, to, 1_000, 5, T0, &mut fx).ok().unwrap();
    assert_eq!(outcomes.len(), 5);
    assert_eq!(outcomes.iter().filter(|o| matches!(o, RaceOutcome::Completed)).count(), 3);
    assert_eq!(bank.ledger.history_row(1, 1).unwrap().note.as_deref(), Some("race demo #1"));
    assert_eq!(bank.ledger.history_row(1, 3).unwrap().note.as_deref(), Some("race demo #3"));
    assert!(fx.events.iter().any(|e| e.name == "transfer.completed"));
    // The run had a limiter of its own: the bank's still lets five through.
    bank.ledger.adjust_balance(from, 1_000).unwrap();
    for k in 0..5 {
        assert!(bank.create_transfer(1, Role::Customer, from, to, 100, None, T0 + k, &ScreenOtp, &mut Effects::new()).is_ok());
    }
    assert_eq!(sign_in_gate(true, Role::Customer, true, true, true), SignInGate::Blocked);
    assert_eq!(sign_in_gate(false, Role::Customer, true, true, true), SignInGate::StepUp);
    assert_eq!(sign_in_gate(false, Role::Admin, true, true, true), SignInGate::Proceed);
}

/// A channel that always reaches the user.
struct Reached;

impl ferrobank::telegram::OtpChannel for Reached {
    fn send_otp(&self, _user_id: i64, _otp: &str) -> bool {
        true
    }
}

#[test]
fn delivery_is_what_the_channel_says() {
    let (mut bank, from, to) = rig(5_000);
    let c = bank.create_transfer(1, Role::Customer, from, to, 100, None, T0, &Reached, &mut Effects::new()).ok().unwrap();
    assert!(c.otp_delivered);
    let d = bank.create_transfer(1, Role::Customer, from, to, 100, None, T0 + 1, &ScreenOtp, &mut Effects::new()).ok().unwrap();
    assert!(!d.otp_delivered);
    let mut otps = ferrobank::actions::ActionOtps::new();
    assert!(otps.begin(1, "loan.apply", "{}".to_string(), T0, &Reached).unwrap().delivered);
    assert!(!otps.begin(1, "loan.apply", "{}".to_string(), T0, &ScreenOtp).unwrap().delivered);
}
