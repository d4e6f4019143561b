//! Sessions and the guards in front of every page: who is signed in, which
//! roles a staff area admits, the five-minute inactivity limit, the
//! mandatory Telegram link for customers, and where a sign-in lands.

use vstd::prelude::*;
use crate::errors::{AppError, ErrorKind};
use crate::models::Role;
use crate::text::{contains, contains_seq, starts_with, starts_with_seq};

verus! {

/// Sessions end after five minutes without a request, in microseconds.
pub const INACTIVITY_TTL_MICROS: i64 = 300_000_000;

/// What the session cookie holds about the signed-in user.
#[derive(Clone, Debug)]
pub struct SessionUser {
    pub id: i64,
    pub email: String,
    /// Given name, for greetings.
    pub name: String,
    pub role: Role,
}

/// The signed-in user, as handlers see it.
#[derive(Clone, Debug)]
pub struct CurrentUser {
    pub id: i64,
    pub email: String,
    /// Given name, for greetings.
    pub name: String,
    pub role: Role,
}

impl CurrentUser {
    /// The current user from the session: `Unauthorized` when nobody is
    /// signed in.
    pub fn from_session(s: Option<SessionUser>) -> (r: Result<CurrentUser, AppError>)
        ensures
            s is None ==> (r matches Err(e) && e@ == (ErrorKind::Unauthorized, Seq::<char>::empty())),
            s matches Some(u) ==> (r matches Ok(c) && c.id == u.id && c.email@ == u.email@
                && c.name@ == u.name@ && c.role == u.role),
    {
        match s {
            Some(u) => Ok(CurrentUser { id: u.id, email: u.email, name: u.name, role: u.role }),
            None => Err(AppError::Unauthorized),
        }
    }
}

/// What a role guard does with a request.
#[derive(Clone, Copy, Debug, PartialEq, Eq, Structural)]
pub enum Gate {
    Pass,
    /// Signed in without the role: a 403 page.
    Forbidden,
    /// Nobody signed in: a redirect to `/login`.
    ToLogin,
}

/// Admits a staff area to one role; admins are superusers.
#[derive(Clone, Copy, Debug, PartialEq, Eq, Structural)]
pub struct RequireRole(pub Role);

/// The role guard's decision for a request whose session holds `role`.
pub open spec fn gate_spec(required: Role, role: Option<Role>) -> Gate {
    match role {
        None => Gate::ToLogin,
        Some(r) => if r == Role::Admin || r == required {
            Gate::Pass
        } else {
            Gate::Forbidden
        },
    }
}

impl RequireRole {
    /// Decides a request whose session holds `role` (`None`: signed out).
    pub fn check(&self, role: Option<Role>) -> (g: Gate)
        ensures
            g == gate_spec(self.0, role),
    {
        match role {
            None => Gate::ToLogin,
            Some(r) => if r == Role::Admin || r == self.0 {
                Gate::Pass
            } else {
                Gate::Forbidden
            },
        }
    }
}

/// A role guard wrapped around a service.
pub struct RequireRoleMiddleware<S> {
    pub service: S,
    pub required: Role,
}

impl RequireRole {
    /// Wraps `service` in this guard.
    pub fn new_transform<S>(&self, service: S) -> (m: RequireRoleMiddleware<S>)
        ensures
            m.required == self.0,
            m.service == service,
    {
        RequireRoleMiddleware { service, required: self.0 }
    }
}

impl<S> RequireRoleMiddleware<S> {
    /// Decides a request whose session holds `role`.
    pub fn decide(&self, role: Option<Role>) -> (g: Gate)
        ensures
            g == gate_spec(self.required, role),
    {
        RequireRole(self.required).check(role)
    }
}

/// A password is enough from a known origin: a sign-in whose origin is
/// neither blocked nor new proceeds without a code, whoever signs in. A
/// code is asked only of a Telegram-linked customer, with codes on,
/// signing in from a new origin; a blocked origin is refused first.
pub proof fn law_known_origin_needs_no_code(role: Role, telegram_enabled: bool, linked: bool, origin_new: bool)
    ensures
        !needs_step_up_spec(role, telegram_enabled, linked, false),
        sign_in_gate_spec(false, role, telegram_enabled, linked, false) == SignInGate::Proceed,
        needs_step_up_spec(role, telegram_enabled, linked, origin_new) <==> (role == Role::Customer && telegram_enabled
            && linked && origin_new),
        sign_in_gate_spec(false, Role::Customer, true, true, true) == SignInGate::StepUp,
        sign_in_gate_spec(true, role, telegram_enabled, linked, origin_new) == SignInGate::Blocked,
{
}

/// An admin passes every role guard; a signed-out visitor never does.
pub proof fn law_admin_passes_every_guard(required: Role)
    ensures
        gate_spec(required, Some(Role::Admin)) == Gate::Pass,
        gate_spec(required, None) == Gate::ToLogin,
{
}

/// What the activity guard does with a signed-in user's request.
#[derive(Clone, Copy, Debug, PartialEq, Eq, Structural)]
pub enum Activity {
    /// Inactive too long: the session is purged and the request redirected
    /// to `/login?expired=1`.
    Expired,
    /// A customer without a linked Telegram is sent to `/settings/telegram`.
    LinkTelegram,
    /// The request goes on (and the activity clock restarts).
    Pass,
}

/// The paths an unlinked customer may still reach.
pub open spec fn link_exempt_spec(path: Seq<char>) -> bool {
    starts_with_seq(path, "/settings/telegram"@) || path == "/logout"@ || path == "/notifications"@
}

/// Whether `path` stays reachable before Telegram is linked.
pub fn link_exempt(path: &str) -> (b: bool)
    ensures
        b == link_exempt_spec(path@),
{
    proof {
        reveal_strlit("/logout");
        reveal_strlit("/notifications");
    }
    starts_with(path, "/settings/telegram") || crate::text::same_text(path, "/logout")
        || crate::text::same_text(path, "/notifications")
}

/// The activity guard's decision, on database time `now`: a session whose
/// last activity is more than five minutes old has expired; then a
/// customer who must link Telegram reaches only the linking pages.
pub open spec fn activity_spec(role: Role, last_activity: Option<i64>, now: int, telegram_enabled: bool, linked: bool, path: Seq<char>) -> Activity {
    if (match last_activity {
        Some(t) => t < now - INACTIVITY_TTL_MICROS,
        None => false,
    }) {
        Activity::Expired
    } else if telegram_enabled && role == Role::Customer && !link_exempt_spec(path) && !linked {
        Activity::LinkTelegram
    } else {
        Activity::Pass
    }
}

/// The guard wrapped around every request of a signed-in user.
#[derive(Clone, Copy, Debug, PartialEq, Eq, Structural)]
pub struct ActivityGuard;

impl ActivityGuard {
    /// Decides a request by a user with `role` whose last activity was
    /// `last_activity`, at `now`, for `path`.
    pub fn decide(&self, role: Role, last_activity: Option<i64>, now: i64, telegram_enabled: bool, linked: bool, path: &str) -> (a: Activity)
        ensures
            a == activity_spec(role, last_activity, now as int, telegram_enabled, linked, path@),
    {
        match last_activity {
            Some(t) => if (t as i128) < (now as i128) - (INACTIVITY_TTL_MICROS as i128) {
                return Activity::Expired;
            },
            None => {},
        }
        if telegram_enabled && role == Role::Customer && !link_exempt(path) && !linked {
            Activity::LinkTelegram
        } else {
            Activity::Pass
        }
    }
}

/// The activity guard wrapped around a service.
pub struct ActivityGuardMiddleware<S> {
    pub service: S,
}

impl ActivityGuard {
    /// Wraps `service` in the activity guard.
    pub fn new_transform<S>(&self, service: S) -> (m: ActivityGuardMiddleware<S>)
        ensures
            m.service == service,
    {
        ActivityGuardMiddleware { service }
    }
}

impl<S> ActivityGuardMiddleware<S> {
    /// Decides a request, as [`ActivityGuard::decide`] does.
    pub fn decide(&self, role: Role, last_activity: Option<i64>, now: i64, telegram_enabled: bool, linked: bool, path: &str) -> (a: Activity)
        ensures
            a == activity_spec(role, last_activity, now as int, telegram_enabled, linked, path@),
    {
        ActivityGuard.decide(role, last_activity, now, telegram_enabled, linked, path)
    }
}

/// An expired session is refused whatever it asks for and whoever holds
/// it; a user active within the limit is never expired.
pub proof fn law_expiry_comes_first(role: Role, t: i64, now: int, telegram_enabled: bool, linked: bool, path: Seq<char>)
    ensures
        t < now - INACTIVITY_TTL_MICROS ==> activity_spec(role, Some(t), now, telegram_enabled, linked, path) == Activity::Expired,
        t >= now - INACTIVITY_TTL_MICROS ==> activity_spec(role, Some(t), now, telegram_enabled, linked, path) != Activity::Expired,
{
}

/// Staff, and customers once linked, are never sent to the linking page.
pub proof fn law_only_unlinked_customers_are_sent_to_link(role: Role, last: Option<i64>, now: int, telegram_enabled: bool, linked: bool, path: Seq<char>)
    requires
        activity_spec(role, last, now, telegram_enabled, linked, path) == Activity::LinkTelegram,
    ensures
        role == Role::Customer,
        telegram_enabled,
        !linked,
        !link_exempt_spec(path),
{
}

/// Whether a Telegram unlink scheduled for `unlink_at` is due at `now`.
pub fn unlink_due(unlink_at: Option<i64>, now: i64) -> (b: bool)
    ensures
        b == (match unlink_at {
            Some(t) => t <= now,
            None => false,
        }),
{
    match unlink_at {
        Some(t) => t <= now,
        None => false,
    }
}

/// Where each role lands after signing in.
pub open spec fn destination_spec(role: Role) -> Seq<char> {
    match role {
        Role::Admin => "/admin/dashboard"@,
        Role::Teller => "/loans"@,
        Role::Customer => "/accounts"@,
    }
}

/// Where each role lands after signing in: admins on the dashboard,
/// tellers on the loan queue, customers on their accounts.
pub fn post_login_destination(role: Role) -> (s: &'static str)
    ensures
        s@ == destination_spec(role),
{
    match role {
        Role::Admin => "/admin/dashboard",
        Role::Teller => "/loans",
        Role::Customer => "/accounts",
    }
}

/// Whether a password sign-in must also present a one-time code: a linked
/// customer signing in from a first-seen browser or network, when Telegram
/// codes are on.
pub open spec fn needs_step_up_spec(role: Role, telegram_enabled: bool, linked: bool, origin_new: bool) -> bool {
    role == Role::Customer && telegram_enabled && linked && origin_new
}

/// Decides whether a sign-in needs the step-up code.
pub fn needs_step_up(role: Role, telegram_enabled: bool, linked: bool, origin_new: bool) -> (b: bool)
    ensures
        b == needs_step_up_spec(role, telegram_enabled, linked, origin_new),
{
    role == Role::Customer && telegram_enabled && linked && origin_new
}

/// What happens to a sign-in whose password matched.
#[derive(Clone, Copy, Debug, PartialEq, Eq, Structural)]
pub enum SignInGate {
    /// The device and network are blocked: refuse.
    Blocked,
    /// A first-seen origin: a code goes to the linked Telegram first.
    StepUp,
    /// Sign in now.
    Proceed,
}

/// The sign-in checks after the password, in order: a blocked origin is
/// refused before anything else; then a step-up code is needed where
/// [`needs_step_up_spec`] says so; otherwise the sign-in proceeds.
pub open spec fn sign_in_gate_spec(blocked: bool, role: Role, telegram_enabled: bool, linked: bool, origin_new: bool) -> SignInGate {
    if blocked {
        SignInGate::Blocked
    } else if needs_step_up_spec(role, telegram_enabled, linked, origin_new) {
        SignInGate::StepUp
    } else {
        SignInGate::Proceed
    }
}

/// Decides a sign-in whose password matched, from whether its origin is
/// blocked, the user's role, whether codes go to Telegram, whether the user
/// is linked and whether the origin is first-seen.
pub fn sign_in_gate(blocked: bool, role: Role, telegram_enabled: bool, linked: bool, origin_new: bool) -> (g: SignInGate)
    ensures
        g == sign_in_gate_spec(blocked, role, telegram_enabled, linked, origin_new),
{
    if blocked {
        SignInGate::Blocked
    } else if needs_step_up(role, telegram_enabled, linked, origin_new) {
        SignInGate::StepUp
    } else {
        SignInGate::Proceed
    }
}

/// Where a completed sign-in lands: a customer without a linked Telegram
/// (when codes are on) goes to the linking page, anyone else to the role's
/// home.
pub open spec fn landing_spec(role: Role, telegram_enabled: bool, linked: bool) -> Seq<char> {
    if role == Role::Customer && telegram_enabled && !linked {
        "/settings/telegram"@
    } else {
        destination_spec(role)
    }
}

/// Where a completed sign-in lands.
pub fn login_landing(role: Role, telegram_enabled: bool, linked: bool) -> (s: &'static str)
    ensures
        s@ == landing_spec(role, telegram_enabled, linked),
{
    if role == Role::Customer && telegram_enabled && !linked {
        "/settings/telegram"
    } else {
        post_login_destination(role)
    }
}

/// What the step-up page does with the answer to a verification.
#[derive(Clone, Debug)]
pub enum StepUpOutcome {
    /// The code was right: the session is created.
    SignIn,
    /// A wrong code with tries left: the page asks again, with the message.
    Retry(String),
    /// The third wrong code: the origin is blocked for a day.
    Block,
    /// The verification expired or was used up: sign in again.
    Expired,
}

/// The view of a step-up outcome.
pub open spec fn outcome_view(o: StepUpOutcome) -> Option<(int, Seq<char>)> {
    match o {
        StepUpOutcome::SignIn => Some((0, Seq::empty())),
        StepUpOutcome::Retry(m) => Some((1, m@)),
        StepUpOutcome::Block => Some((2, Seq::empty())),
        StepUpOutcome::Expired => Some((3, Seq::empty())),
    }
}

/// The step-up page's decision on a verification answer; `None` passes
/// any other error on.
pub open spec fn step_up_spec(r: Result<Seq<char>, (ErrorKind, Seq<char>)>) -> Option<(int, Seq<char>)> {
    match r {
        Ok(_) => Some((0, Seq::empty())),
        Err((ErrorKind::BadRequest, m)) => Some((1, m)),
        Err((ErrorKind::Conflict, m)) => if contains_seq(m, "too many"@) {
            Some((2, Seq::empty()))
        } else {
            Some((3, Seq::empty()))
        },
        Err(_) => None,
    }
}

/// Decides the step-up page's answer from the verification result.
pub fn step_up_outcome(r: &Result<String, AppError>) -> (o: Option<StepUpOutcome>)
    ensures
        match o {
            Some(x) => outcome_view(x) == step_up_spec(crate::actions::payload_answer(*r)),
            None => step_up_spec(crate::actions::payload_answer(*r)) is None,
        },
{
    match r {
        Ok(_) => Some(StepUpOutcome::SignIn),
        Err(AppError::BadRequest(m)) => Some(StepUpOutcome::Retry(m.clone())),
        Err(AppError::Conflict(m)) => if contains(m.as_str(), "too many") {
            Some(StepUpOutcome::Block)
        } else {
            Some(StepUpOutcome::Expired)
        },
        Err(_) => None,
    }
}

/// The banner on the sign-in page: after registering, or after being
/// signed out for inactivity.
pub open spec fn login_notice_spec(registered: bool, expired: bool) -> Option<Seq<char>> {
    if registered {
        Some("Account created - please sign in with your new credentials."@)
    } else if expired {
        Some("You were signed out after 5 minutes of inactivity. Please sign in again."@)
    } else {
        None
    }
}

/// The banner on the sign-in page, if any.
pub fn login_notice(registered: bool, expired: bool) -> (r: Option<&'static str>)
    ensures
        match r {
            Some(s) => login_notice_spec(registered, expired) == Some(s@),
            None => login_notice_spec(registered, expired) is None,
        },
{
    if registered {
        Some("Account created - please sign in with your new credentials.")
    } else if expired {
        Some("You were signed out after 5 minutes of inactivity. Please sign in again.")
    } else {
        None
    }
}

} // verus!
