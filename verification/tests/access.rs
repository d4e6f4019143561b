use ferrobank::actions::ActionOtps;
use ferrobank::config::{parse_port, utf8_byte_len, Config};
use ferrobank::errors::{AppError, ErrorKind, ErrorReply};
use ferrobank::models::{NewUser, Role, User};
use ferrobank::notices::{AuditLog, Inbox};
use ferrobank::otp::{code_check, hash_code, new_account_number, new_code};
use ferrobank::security::{browser_family, Origins};
use ferrobank::session::{
    login_landing, login_notice, needs_step_up, post_login_destination, step_up_outcome, unlink_due,
    Activity, ActivityGuard, CurrentUser, Gate, RequireRole, SessionUser, StepUpOutcome,
};
use ferrobank::telegram::{next_offset, otp_message, parse_command, BotCommand, Links};
use ferrobank::transfer::CodeCheck;
use ferrobank::users::{login_form_ok, registration_problems, Users};
use ferrobank::view::{demo_code, LayoutCtx};

const T0: i64 = 1_700_000_000_000_000;
const MINUTE: i64 = 60_000_000;
const HOUR: i64 = 3_600_000_000;

const CHROME: &str = "Mozilla/5.0 (X11; Linux x86_64) AppleWebKit/537.36 (KHTML, like Gecko) Chrome/120.0 Safari/537.36";
const FIREFOX: &str = "Mozilla/5.0 (X11; Linux x86_64; rv:121.0) Gecko/20100101 Firefox/121.0";

fn message(e: &AppError) -> String {
    match e {
        AppError::NotFound(m) | AppError::BadRequest(m) | AppError::Conflict(m) | AppError::Internal(m) => m.clone(),
        AppError::Unauthorized => "unauthorized".to_string(),
        AppError::Forbidden => "forbidden".to_string(),
    }
}

fn new_user(email: &str, password: &str) -> NewUser {
    NewUser {
        email: email.to_string(),
        password: password.to_string(),
        first_name: " Alice ".to_string(),
        middle_name: Some("  ".to_string()),
        last_name: "Tan".to_string(),
        nric: Some(" S1234567A ".to_string()),
        role: Role::Customer,
    }
}

#[test]
fn codes_hash_and_verify() {
    let code = new_code();
    assert_eq!(code.len(), 6);
    assert!(code.chars().all(|c| c.is_ascii_digit()));
    let hash = hash_code(&code).unwrap();
    assert_ne!(hash, code);
    assert_eq!(code_check(Some(&hash), &code), CodeCheck::Match);
    let wrong = if code == "123456" { "654321" } else { "123456" };
    assert_eq!(code_check(Some(&hash), wrong), CodeCheck::Mismatch);
    assert_eq!(code_check(Some("not a hash"), &code), CodeCheck::BadHash);
    assert_eq!(code_check(None, &code), CodeCheck::NoHash);
    for _ in 0..50 {
        let n = new_account_number();
        assert!((1_000_000_000..=9_999_999_999).contains(&n));
    }
}

#[test]
fn action_codes_are_single_use_owner_bound_and_expire() {
    let mut otps = ActionOtps::new();
    let c = otps.begin(7, "loan.apply", "{\"principal\":\"5000\"}".to_string(), T0, &ferrobank::telegram::ScreenOtp).unwrap();
    assert_eq!(c.action_id, 1);
    assert!(!c.delivered);
    // Someone else, or another purpose: no longer valid, and nothing changes.
    assert_eq!(message(&otps.verify(8, 1, "loan.apply", &c.otp, T0).unwrap_err()), "this confirmation is no longer valid");
    assert_eq!(message(&otps.verify(7, 1, "account.open", &c.otp, T0).unwrap_err()), "this confirmation is no longer valid");
    // The right code (with stray spaces) hands the payload back once.
    let typed = format!("  {}  ", c.otp);
    assert_eq!(otps.verify(7, 1, "loan.apply", &typed, T0 + MINUTE).unwrap(), "{\"principal\":\"5000\"}");
    assert_eq!(message(&otps.verify(7, 1, "loan.apply", &c.otp, T0 + MINUTE).unwrap_err()), "this confirmation is no longer valid");
    // Expiry after ten minutes.
    let c2 = otps.begin(7, "settings.email", "{}".to_string(), T0, &ferrobank::telegram::ScreenOtp).unwrap();
    let e = otps.verify(7, c2.action_id, "settings.email", &c2.otp, T0 + 10 * MINUTE + 1).unwrap_err();
    assert_eq!(message(&e), "the code has expired — please start the action again");
}

#[test]
fn third_wrong_action_code_cancels() {
    let mut otps = ActionOtps::new();
    let c = otps.begin(7, "login.stepup", "{}".to_string(), T0, &ferrobank::telegram::ScreenOtp).unwrap();
    let wrong = if c.otp == "000000" { "999999" } else { "000000" };
    let e1 = otps.verify(7, 1, "login.stepup", wrong, T0).unwrap_err();
    assert!(matches!(e1, AppError::BadRequest(_)));
    assert_eq!(message(&e1), "invalid confirmation code (attempt 1 of 3)");
    assert_eq!(message(&otps.verify(7, 1, "login.stepup", wrong, T0).unwrap_err()), "invalid confirmation code (attempt 2 of 3)");
    let e3 = otps.verify(7, 1, "login.stepup", wrong, T0).unwrap_err();
    assert!(matches!(e3, AppError::Conflict(_)));
    assert!(message(&e3).contains("too many"));
    assert!(otps.verify(7, 1, "login.stepup", &c.otp, T0).is_err());
    // The step-up page blocks the origin on the third strike.
    assert!(matches!(step_up_outcome(&Err(e3)), Some(StepUpOutcome::Block)));
    assert!(matches!(step_up_outcome(&Err(e1)), Some(StepUpOutcome::Retry(_))));
    assert!(matches!(step_up_outcome(&Ok("{}".to_string())), Some(StepUpOutcome::SignIn)));
    let expired = AppError::Conflict("the code has expired — please start the action again".to_string());
    assert!(matches!(step_up_outcome(&Err(expired)), Some(StepUpOutcome::Expired)));
    assert!(step_up_outcome(&Err(AppError::Internal("x".to_string()))).is_none());
}

#[test]
fn registration_and_sign_in() {
    let mut users = Users::new();
    let u = users.register(new_user("alice@example.com", "password123")).unwrap();
    assert_eq!(u.id, 1);
    assert_eq!(u.full_name, "Alice Tan");
    assert_eq!(u.first_name.as_deref(), Some("Alice"));
    assert_eq!(u.given_name(), "Alice");
    let e = users.register(new_user("alice@example.com", "another1")).unwrap_err();
    assert_eq!(message(&e), "email already registered");
    let who = users.login("alice@example.com", "password123", T0).unwrap();
    assert_eq!(who.id, 1);
    assert_eq!(users.last_activity(1), Some(T0));
    assert!(matches!(users.login("alice@example.com", "wrong-pass", T0), Err(AppError::Unauthorized)));
    assert!(matches!(users.login("nobody@example.com", "password123", T0), Err(AppError::Unauthorized)));
    assert_eq!(message(&users.find_by_id(5).unwrap_err()), "user 5 not found");
    users.register(new_user("bob@example.com", "password456")).unwrap();
    assert_eq!(message(&users.change_email(1, " bob@example.com ").unwrap_err()), "that email is already registered");
    users.change_email(1, " alice@new.example ").unwrap();
    assert!(users.login("alice@new.example", "password123", T0).is_ok());
    users.change_password(1, "new-password").unwrap();
    assert!(matches!(users.login("alice@new.example", "password123", T0), Err(AppError::Unauthorized)));
    assert!(users.login("alice@new.example", "new-password", T0).is_ok());
}

#[test]
fn registration_form_checks() {
    assert!(registration_problems("alice@example.com", "Alice", None, "Tan", "S1234567A", "password123").is_empty());
    assert_eq!(
        registration_problems("not-an-email", "", Some(&"x".repeat(41)), "Tan", "S12", "short"),
        vec!["email", "first_name", "middle_name", "nric", "password"]
    );
    assert!(login_form_ok("alice@example.com", "x"));
    assert!(!login_form_ok("alice", "x"));
    assert!(!login_form_ok("alice@example.com", ""));
}

#[test]
fn given_name_falls_back() {
    let u = User { id: 1, email: "a@b.c".into(), full_name: "  Grace   Hopper ".into(), first_name: None, role: Role::Customer };
    assert_eq!(u.given_name(), "Grace");
    let v = User { id: 1, email: "a@b.c".into(), full_name: "   ".into(), first_name: None, role: Role::Customer };
    assert_eq!(v.given_name(), "there");
}

#[test]
fn browser_families() {
    assert_eq!(browser_family(CHROME), "Chrome");
    assert_eq!(browser_family(FIREFOX), "Firefox");
    assert_eq!(browser_family("Mozilla/5.0 Chrome/120.0 Safari/537.36 Edg/120.0"), "Edge");
    assert_eq!(browser_family("Mozilla/5.0 (Macintosh) Version/17.0 Safari/605.1.15"), "Safari");
    assert_eq!(browser_family("curl/8.0"), "Other");
}

#[test]
fn sign_in_origins_and_blocks() {
    let mut o = Origins::new();
    // The very first sign-in is never new, and raises no alert.
    assert!(!o.login_origin_is_new(1, CHROME, "10.0.0.1"));
    assert_eq!(o.record_login_session(1, CHROME, "10.0.0.1", T0, &mut ferrobank::effects::Effects::new()), None);
    assert!(!o.login_origin_is_new(1, CHROME, "10.0.0.1"));
    assert!(o.login_origin_is_new(1, FIREFOX, "10.0.0.1"));
    assert!(o.login_origin_is_new(1, CHROME, "10.0.0.2"));
    assert_eq!(
        o.record_login_session(1, FIREFOX, "10.0.0.2", T0 + 1, &mut ferrobank::effects::Effects::new()).as_deref(),
        Some("Security alert - your account just signed in from a new device AND a new network (Firefox, 10.0.0.2). If this wasn't you, change your password immediately.")
    );
    assert!(!o.login_origin_is_new(1, FIREFOX, "10.0.0.2"));
    let alert = o.block_origin(1, CHROME, "10.9.9.9", 24, T0);
    assert_eq!(
        alert,
        "Security alert - sign-in verification failed 3 times from a new origin (Chrome, 10.9.9.9). That device/network is blocked for 24 hours. If this wasn't you, change your password now."
    );
    assert!(o.origin_blocked(1, CHROME, "10.9.9.9", T0 + 23 * HOUR));
    assert!(!o.origin_blocked(1, CHROME, "10.9.9.9", T0 + 24 * HOUR));
    assert!(!o.origin_blocked(1, FIREFOX, "10.9.9.9", T0));
    assert!(!o.origin_blocked(2, CHROME, "10.9.9.9", T0));
}

#[test]
fn guards_and_landings() {
    let staff = RequireRole(Role::Teller);
    assert_eq!(staff.check(Some(Role::Admin)), Gate::Pass);
    assert_eq!(staff.check(Some(Role::Teller)), Gate::Pass);
    assert_eq!(staff.check(Some(Role::Customer)), Gate::Forbidden);
    assert_eq!(staff.check(None), Gate::ToLogin);
    assert_eq!(post_login_destination(Role::Admin), "/admin/dashboard");
    assert_eq!(post_login_destination(Role::Teller), "/loans");
    assert_eq!(post_login_destination(Role::Customer), "/accounts");
    assert_eq!(login_landing(Role::Customer, true, false), "/settings/telegram");
    assert_eq!(login_landing(Role::Customer, false, false), "/accounts");
    assert!(needs_step_up(Role::Customer, true, true, true));
    assert!(!needs_step_up(Role::Customer, true, false, true));
    assert!(!needs_step_up(Role::Teller, true, true, true));
    let g = ActivityGuard;
    assert_eq!(g.decide(Role::Customer, Some(T0), T0 + 5 * MINUTE, true, true, "/accounts"), Activity::Pass);
    assert_eq!(g.decide(Role::Admin, Some(T0), T0 + 5 * MINUTE + 1, false, true, "/admin"), Activity::Expired);
    assert_eq!(g.decide(Role::Customer, None, T0, true, false, "/accounts"), Activity::LinkTelegram);
    assert_eq!(g.decide(Role::Customer, None, T0, true, false, "/settings/telegram/link"), Activity::Pass);
    assert_eq!(g.decide(Role::Customer, None, T0, true, false, "/logout"), Activity::Pass);
    assert_eq!(g.decide(Role::Teller, None, T0, true, false, "/loans"), Activity::Pass);
    assert!(unlink_due(Some(T0), T0));
    assert!(!unlink_due(Some(T0 + 1), T0));
    assert!(!unlink_due(None, T0));
    assert_eq!(login_notice(true, true), Some("Account created - please sign in with your new credentials."));
    assert_eq!(login_notice(false, true), Some("You were signed out after 5 minutes of inactivity. Please sign in again."));
    assert_eq!(login_notice(false, false), None);
}

#[test]
fn current_user_and_layout() {
    assert!(matches!(CurrentUser::from_session(None), Err(AppError::Unauthorized)));
    let u = CurrentUser::from_session(Some(SessionUser {
        id: 3,
        email: "t@bank.local".into(),
        name: "Tina".into(),
        role: Role::Teller,
    }))
    .unwrap();
    assert_eq!(u.id, 3);
    let l = LayoutCtx::from_user(Some(&u));
    let chip = l.user.unwrap();
    assert_eq!(chip.role, "teller");
    assert_eq!(chip.name, "Tina");
    assert!(LayoutCtx::anonymous().user.is_none());
    assert_eq!(demo_code(&"123456".to_string(), false).as_deref(), Some("123456"));
    assert_eq!(demo_code(&"123456".to_string(), true), None);
}

#[test]
fn error_replies() {
    assert!(matches!(AppError::Unauthorized.reply(), ErrorReply::RedirectToLogin));
    match AppError::Conflict("transfer is already completed".into()).reply() {
        ErrorReply::Page { status, title, message } => {
            assert_eq!(status, 409);
            assert_eq!(title, "Conflict");
            assert_eq!(message, "transfer is already completed");
        }
        other => panic!("{other:?}"),
    }
    match AppError::Internal("db down".into()).reply() {
        ErrorReply::Page { status, message, .. } => {
            assert_eq!(status, 500);
            assert_eq!(message, "Something went wrong on our end. Please try again.");
        }
        other => panic!("{other:?}"),
    }
    assert_eq!(AppError::NotFound("x".into()).status_code(), 404);
    assert_eq!(AppError::Forbidden.kind(), ErrorKind::Forbidden);
}

#[test]
fn bot_commands_and_links() {
    assert!(parse_command("   ").is_none());
    assert!(matches!(parse_command(" /start  abc123 "), Some(BotCommand::Start(c)) if c == "abc123"));
    assert!(matches!(parse_command("/start"), Some(BotCommand::StartBare)));
    assert!(matches!(parse_command("/unlink now"), Some(BotCommand::Unlink)));
    assert!(matches!(parse_command("hello"), Some(BotCommand::Help)));
    assert_eq!(next_offset(0, 41), 42);
    assert_eq!(next_offset(100, 41), 100);
    assert!(otp_message("123456").starts_with("\u{1F510} FerroBank verification code: 123456\n\n"));

    let mut links = Links::new();
    links.add_user(1, "Alice Tan".to_string());
    links.set_link_code(0, "code-1".to_string());
    let reply = links.start(555, "code-1");
    assert!(reply.starts_with("\u{2705} Linked! Hi Alice Tan - "));
    assert_eq!(links.chat_of(0), Some(555));
    // The code is spent.
    assert!(links.start(666, "code-1").starts_with("That link code wasn't recognised"));
    assert_eq!(links.chat_of(0), Some(555));
    // Unlinking from the chat waits a day.
    let (reply, users) = links.unlink(555, T0, &mut ferrobank::effects::Effects::new());
    assert!(reply.starts_with("\u{23F3} Unlink scheduled"));
    assert_eq!(users, vec![1]);
    links.apply_due_unlink(0, T0 + 23 * HOUR);
    assert_eq!(links.chat_of(0), Some(555));
    let (again, none) = links.unlink(555, T0 + HOUR, &mut ferrobank::effects::Effects::new());
    assert_eq!(again, "No FerroBank account is linked to this chat, or an unlink is already scheduled.");
    assert!(none.is_empty());
    links.apply_due_unlink(0, T0 + 24 * HOUR);
    assert_eq!(links.chat_of(0), None);
}

#[test]
fn notifications_fire_once() {
    let mut inbox = Inbox::new();
    inbox.notify(1, "first");
    inbox.notify(2, "other user");
    inbox.notify(1, "second");
    assert_eq!(inbox.take_unseen(1), vec!["first".to_string(), "second".to_string()]);
    assert!(inbox.take_unseen(1).is_empty());
    assert_eq!(inbox.take_unseen(2), vec!["other user".to_string()]);
    let mut log = AuditLog::new();
    log.record(Some(1), "transfer.created", "{}".to_string(), T0);
    log.record(None, "system.snapshot", "{\"accounts\":1}".to_string(), T0 + 1);
    let recent = log.recent(20);
    assert_eq!(recent.len(), 2);
    assert_eq!(recent[0].event, "system.snapshot");
    assert_eq!(recent[1].id, 1);
    assert_eq!(log.recent(1).len(), 1);
    assert!(log.recent(-1).is_empty());
}

#[test]
fn configuration_values() {
    let secret = "s".repeat(64);
    let c = Config::from_values(Some("postgres://x".into()), None, None, Some(secret.clone()), Some("  ".into())).unwrap();
    assert_eq!(c.app_host, "127.0.0.1");
    assert_eq!(c.app_port, 8080);
    assert!(c.telegram_bot_token.is_none());
    let c = Config::from_values(Some("u".into()), Some("0.0.0.0".into()), Some("+9090".into()), Some(secret.clone()), Some("tok".into())).unwrap();
    assert_eq!(c.app_port, 9090);
    assert_eq!(c.telegram_bot_token.as_deref(), Some("tok"));
    assert_eq!(
        Config::from_values(None, None, None, Some(secret.clone()), None).unwrap_err(),
        "DATABASE_URL must be set (see .env.example)"
    );
    assert_eq!(
        Config::from_values(Some("u".into()), None, Some("70000".into()), Some(secret.clone()), None).unwrap_err(),
        "APP_PORT must be a valid port number"
    );
    assert_eq!(
        Config::from_values(Some("u".into()), None, None, None, None).unwrap_err(),
        "SESSION_SECRET must be set (generate with: openssl rand -base64 64)"
    );
    assert_eq!(
        Config::from_values(Some("u".into()), None, None, Some("short".into()), None).unwrap_err(),
        "SESSION_SECRET must be at least 64 bytes (got 5). Generate one with: openssl rand -base64 64"
    );
    assert_eq!(parse_port("65535"), Some(65535));
    assert_eq!(parse_port("65536"), None);
    assert_eq!(parse_port(""), None);
    assert_eq!(parse_port("+"), None);
    assert_eq!(parse_port("80a"), None);
    assert_eq!(utf8_byte_len("é€😀"), 9);
}
