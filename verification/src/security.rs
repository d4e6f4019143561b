//! Sign-in security: the browser family of a user agent, the history of
//! sign-ins with first-seen device and network flags, and the origins
//! blocked after three failed step-up codes.
//!
//! An origin is a browser family and a source IP. A sign-in from a browser
//! or a network the user never signed in from before is new, except the
//! very first sign-in of all.

use vstd::prelude::*;
use crate::effects::{event4, event_view, flag, flag_field, lemma_then_none, no_effects, one_event, text_field, then, txt, Effects, EffectsView};
use crate::text::{contains, contains_seq, i64_text, int_text, push_digits, digits, same_text};

verus! {

/// One hour, in microseconds.
pub const HOUR_MICROS: i64 = 3_600_000_000;

/// A coarse browser family.
#[derive(Clone, Copy, Debug, PartialEq, Eq, Structural)]
pub enum Browser {
    Edge,
    Firefox,
    Chrome,
    Safari,
    Other,
}

impl Browser {
    pub open spec fn spec_label(self) -> Seq<char> {
        match self {
            Browser::Edge => "Edge"@,
            Browser::Firefox => "Firefox"@,
            Browser::Chrome => "Chrome"@,
            Browser::Safari => "Safari"@,
            Browser::Other => "Other"@,
        }
    }

    /// The family's name.
    pub fn label(&self) -> (s: &'static str)
        ensures
            s@ == self.spec_label(),
    {
        match self {
            Browser::Edge => "Edge",
            Browser::Firefox => "Firefox",
            Browser::Chrome => "Chrome",
            Browser::Safari => "Safari",
            Browser::Other => "Other",
        }
    }
}

/// The family a user agent belongs to. Edge is tested first (its agent
/// also names Chrome and Safari), then Firefox, then Chrome or Chromium
/// (whose agents also name Safari), then Safari.
pub open spec fn browser_of(ua: Seq<char>) -> Browser {
    if contains_seq(ua, "Edg/"@) || contains_seq(ua, "Edge/"@) {
        Browser::Edge
    } else if contains_seq(ua, "Firefox/"@) {
        Browser::Firefox
    } else if contains_seq(ua, "Chrome/"@) || contains_seq(ua, "Chromium/"@) {
        Browser::Chrome
    } else if contains_seq(ua, "Safari/"@) {
        Browser::Safari
    } else {
        Browser::Other
    }
}

/// The browser family of a user agent.
pub fn browser_of_agent(ua: &str) -> (b: Browser)
    ensures
        b == browser_of(ua@),
{
    if contains(ua, "Edg/") || contains(ua, "Edge/") {
        Browser::Edge
    } else if contains(ua, "Firefox/") {
        Browser::Firefox
    } else if contains(ua, "Chrome/") || contains(ua, "Chromium/") {
        Browser::Chrome
    } else if contains(ua, "Safari/") {
        Browser::Safari
    } else {
        Browser::Other
    }
}

/// The name of a user agent's browser family.
pub fn browser_family(user_agent: &str) -> (s: &'static str)
    ensures
        s@ == browser_of(user_agent@).spec_label(),
{
    browser_of_agent(user_agent).label()
}

/// A recorded sign-in.
pub struct LoginRec {
    pub user_id: i64,
    pub browser: Browser,
    /// The user agent as the browser sent it.
    pub user_agent: String,
    pub ip: String,
    /// When, in microseconds.
    pub at: i64,
    pub new_device: bool,
    pub new_network: bool,
}

/// The view of a [`LoginRec`].
pub struct LoginView {
    pub user_id: i64,
    pub browser: Browser,
    pub user_agent: Seq<char>,
    pub ip: Seq<char>,
    pub at: i64,
    pub new_device: bool,
    pub new_network: bool,
}

impl View for LoginRec {
    type V = LoginView;

    open spec fn view(&self) -> LoginView {
        LoginView {
            user_id: self.user_id,
            browser: self.browser,
            user_agent: self.user_agent@,
            ip: self.ip@,
            at: self.at,
            new_device: self.new_device,
            new_network: self.new_network,
        }
    }
}

/// An origin barred from signing in to one user's account.
pub struct BlockRec {
    pub user_id: i64,
    pub browser: Browser,
    pub ip: String,
    /// The block lifts at this time, in microseconds.
    pub until: i64,
}

/// The view of a [`BlockRec`].
pub struct BlockView {
    pub user_id: i64,
    pub browser: Browser,
    pub ip: Seq<char>,
    pub until: i64,
}

impl View for BlockRec {
    type V = BlockView;

    open spec fn view(&self) -> BlockView {
        BlockView { user_id: self.user_id, browser: self.browser, ip: self.ip@, until: self.until }
    }
}

/// The sign-in history and the blocked origins.
pub struct Origins {
    logins: Vec<LoginRec>,
    blocks: Vec<BlockRec>,
}

/// The view of [`Origins`].
pub struct OriginsView {
    pub logins: Seq<LoginView>,
    pub blocks: Seq<BlockView>,
}

impl View for Origins {
    type V = OriginsView;

    closed spec fn view(&self) -> OriginsView {
        OriginsView {
            logins: Seq::new(self.logins@.len(), |i: int| self.logins@[i]@),
            blocks: Seq::new(self.blocks@.len(), |i: int| self.blocks@[i]@),
        }
    }
}

/// A user's earlier sign-ins: all of them, those from `browser`, and those
/// from `ip`.
pub open spec fn history(ls: Seq<LoginView>, user: i64, browser: Browser, ip: Seq<char>) -> (int, int, int)
    decreases ls.len(),
{
    if ls.len() == 0 {
        (0, 0, 0)
    } else {
        let (t, b, i) = history(ls.drop_last(), user, browser, ip);
        let l = ls.last();
        if l.user_id == user {
            (t + 1, b + if l.browser == browser { 1int } else { 0int }, i + if l.ip == ip { 1int } else { 0int })
        } else {
            (t, b, i)
        }
    }
}

/// A sign-in from a browser never used before.
pub open spec fn new_device_spec(ls: Seq<LoginView>, user: i64, browser: Browser, ip: Seq<char>) -> bool {
    history(ls, user, browser, ip).0 > 0 && history(ls, user, browser, ip).1 == 0
}

/// A sign-in from a network never used before.
pub open spec fn new_network_spec(ls: Seq<LoginView>, user: i64, browser: Browser, ip: Seq<char>) -> bool {
    history(ls, user, browser, ip).0 > 0 && history(ls, user, browser, ip).2 == 0
}

/// A sign-in from a first-seen browser or network (never the first
/// sign-in of all).
pub open spec fn origin_new_spec(ls: Seq<LoginView>, user: i64, browser: Browser, ip: Seq<char>) -> bool {
    new_device_spec(ls, user, browser, ip) || new_network_spec(ls, user, browser, ip)
}

/// Whether an unexpired block bars `browser` at `ip` from `user`'s account
/// at `now`.
pub open spec fn blocked_spec(bs: Seq<BlockView>, user: i64, browser: Browser, ip: Seq<char>, now: int) -> bool {
    exists|k: int|
        0 <= k < bs.len() && (#[trigger] bs[k]).user_id == user && bs[k].browser == browser && bs[k].ip
            == ip && bs[k].until > now
}

/// The alert for a sign-in from a new device or network.
pub open spec fn new_origin_alert(device: bool, network: bool, browser: Browser, ip: Seq<char>) -> Seq<char> {
    let what = if device && network {
        "a new device AND a new network"@
    } else if device {
        "a new device"@
    } else {
        "a new network"@
    };
    "Security alert - your account just signed in from "@ + what + " ("@ + browser.spec_label() + ", "@
        + ip + "). If this wasn't you, change your password immediately."@
}

/// The alert for an origin blocked after failed step-up codes.
pub open spec fn block_alert(browser: Browser, ip: Seq<char>, hours: int) -> Seq<char> {
    "Security alert - sign-in verification failed 3 times from a new origin ("@ + browser.spec_label()
        + ", "@ + ip + "). That device/network is blocked for "@ + int_text(hours)
        + " hours. If this wasn't you, change your password now."@
}

/// What a sign-in from a new device or network announces: the event
/// `auth.login.new_origin` by the user, with the origin and the flags.
pub open spec fn new_origin_effects(user: i64, device: bool, network: bool, browser: Browser, ip: Seq<char>) -> EffectsView {
    if device || network {
        one_event(
            event_view(
                Some(user),
                "auth.login.new_origin"@,
                seq![
                    txt("browser"@, browser.spec_label()),
                    txt("ip"@, ip),
                    flag("new_device"@, device),
                    flag("new_network"@, network),
                ],
            ),
        )
    } else {
        no_effects()
    }
}

impl Origins {
    /// No sign-ins and no blocks.
    pub fn new() -> (o: Origins)
        ensures
            o@.logins.len() == 0,
            o@.blocks.len() == 0,
    {
        Origins { logins: Vec::new(), blocks: Vec::new() }
    }

    /// Counts `user`'s earlier sign-ins: all, from `browser`, from `ip`.
    fn count_history(&self, user: i64, browser: Browser, ip: &str) -> (r: (u64, u64, u64))
        ensures
            r.0 == history(self@.logins, user, browser, ip@).0,
            r.1 == history(self@.logins, user, browser, ip@).1,
            r.2 == history(self@.logins, user, browser, ip@).2,
    {
        let ghost ls = self@.logins;
        let n = self.logins.len();
        let mut t: u64 = 0;
        let mut b: u64 = 0;
        let mut p: u64 = 0;
        let mut i: usize = 0;
        while i < n
            invariant
                ls == self@.logins,
                n == ls.len(),
                i <= n,
                t <= i && b <= i && p <= i,
                (t as int, b as int, p as int) == history(ls.subrange(0, i as int), user, browser, ip@),
            decreases n - i,
        {
            let l = &self.logins[i];
            proof {
                assert(ls.subrange(0, i + 1).drop_last() =~= ls.subrange(0, i as int));
                assert(ls.subrange(0, i + 1).last() == l@);
            }
            if l.user_id == user {
                t = t + 1;
                if l.browser == browser {
                    b = b + 1;
                }
                if same_text(l.ip.as_str(), ip) {
                    p = p + 1;
                }
            }
            i = i + 1;
        }
        proof {
            assert(ls.subrange(0, n as int) =~= ls);
        }
        (t, b, p)
    }

    /// Whether a sign-in of `user` with this user agent from `ip` comes
    /// from a first-seen browser or network.
    pub fn login_origin_is_new(&self, user: i64, user_agent: &str, ip: &str) -> (b: bool)
        ensures
            b == origin_new_spec(self@.logins, user, browser_of(user_agent@), ip@),
    {
        let (t, sb, si) = self.count_history(user, browser_of_agent(user_agent), ip);
        t > 0 && (sb == 0 || si == 0)
    }

    /// Records a successful sign-in with its first-seen flags; returns the
    /// alert to send the user when the device or network is new, and then
    /// adds the event `auth.login.new_origin` to `fx`.
    pub fn record_login_session(&mut self, user: i64, user_agent: &str, ip: &str, now: i64, fx: &mut Effects) -> (alert: Option<String>)
        ensures
            ({
                let browser = browser_of(user_agent@);
                let ls = old(self)@.logins;
                let device = new_device_spec(ls, user, browser, ip@);
                let network = new_network_spec(ls, user, browser, ip@);
                &&& final(self)@.blocks == old(self)@.blocks
                &&& final(self)@.logins == ls.push(
                    LoginView {
                        user_id: user,
                        browser,
                        user_agent: user_agent@,
                        ip: ip@,
                        at: now,
                        new_device: device,
                        new_network: network,
                    },
                )
                &&& (device || network) ==> (alert matches Some(a) && a@ == new_origin_alert(device, network, browser, ip@))
                &&& !(device || network) ==> alert is None
                &&& final(fx)@ == then(old(fx)@, new_origin_effects(user, device, network, browser, ip@))
            }),
    {
        proof {
            lemma_then_none(old(fx)@);
        }
        let browser = browser_of_agent(user_agent);
        let (t, sb, si) = self.count_history(user, browser, ip);
        let device = t > 0 && sb == 0;
        let network = t > 0 && si == 0;
        let ghost before = self@;
        self.logins.push(
            LoginRec {
                user_id: user,
                browser,
                user_agent: user_agent.to_owned(),
                ip: ip.to_owned(),
                at: now,
                new_device: device,
                new_network: network,
            },
        );
        proof {
            assert(self@.logins =~= before.logins.push(self.logins@[self.logins@.len() - 1]@));
            assert(self@.blocks =~= before.blocks);
        }
        if device || network {
            let what = if device && network {
                "a new device AND a new network"
            } else if device {
                "a new device"
            } else {
                "a new network"
            };
            let mut m = "Security alert - your account just signed in from ".to_owned();
            m.append(what);
            m.append(" (");
            m.append(browser.label());
            m.append(", ");
            m.append(ip);
            m.append("). If this wasn't you, change your password immediately.");
            fx.emit(
                event4(
                    Some(user),
                    "auth.login.new_origin",
                    text_field("browser", browser.label().to_owned()),
                    text_field("ip", ip.to_owned()),
                    flag_field("new_device", device),
                    flag_field("new_network", network),
                ),
            );
            Some(m)
        } else {
            None
        }
    }

    /// Whether `user`'s account is closed at `now` to sign-ins with this
    /// user agent from `ip`.
    pub fn origin_blocked(&self, user: i64, user_agent: &str, ip: &str, now: i64) -> (b: bool)
        ensures
            b == blocked_spec(self@.blocks, user, browser_of(user_agent@), ip@, now as int),
    {
        let browser = browser_of_agent(user_agent);
        let ghost bs = self@.blocks;
        let n = self.blocks.len();
        let mut i: usize = 0;
        while i < n
            invariant
                bs == self@.blocks,
                browser == browser_of(user_agent@),
                n == bs.len(),
                i <= n,
                forall|k: int|
                    0 <= k < i ==> !((#[trigger] bs[k]).user_id == user && bs[k].browser == browser
                        && bs[k].ip == ip@ && bs[k].until > now),
            decreases n - i,
        {
            let x = &self.blocks[i];
            assert(bs[i as int] == x@);
            if x.user_id == user && x.browser == browser && same_text(x.ip.as_str(), ip) && x.until > now {
                assert(bs[i as int].user_id == user && bs[i as int].browser == browser && bs[i as int].ip == ip@
                    && bs[i as int].until > now);
                return true;
            }
            i = i + 1;
        }
        false
    }

    /// Blocks this origin from `user`'s account for `hours` from `now`;
    /// returns the alert to send the user.
    pub fn block_origin(&mut self, user: i64, user_agent: &str, ip: &str, hours: i32, now: i64) -> (alert: String)
        requires
            0 <= hours,
            0 <= now <= i64::MAX - 2_147_483_647 * HOUR_MICROS,
        ensures
            final(self)@.logins == old(self)@.logins,
            final(self)@.blocks == old(self)@.blocks.push(
                BlockView {
                    user_id: user,
                    browser: browser_of(user_agent@),
                    ip: ip@,
                    until: (now + hours * HOUR_MICROS) as i64,
                },
            ),
            alert@ == block_alert(browser_of(user_agent@), ip@, hours as int),
    {
        let browser = browser_of_agent(user_agent);
        let ghost before = self@;
        proof {
            assert(hours * HOUR_MICROS <= 2_147_483_647 * HOUR_MICROS) by (nonlinear_arith)
                requires
                    0 <= hours <= 2_147_483_647,
            ;
            assert(hours * HOUR_MICROS >= 0) by (nonlinear_arith)
                requires
                    0 <= hours,
            ;
        }
        let until = now + (hours as i64) * HOUR_MICROS;
        self.blocks.push(BlockRec { user_id: user, browser, ip: ip.to_owned(), until });
        proof {
            assert(self@.blocks =~= before.blocks.push(self.blocks@[self.blocks@.len() - 1]@));
            assert(self@.logins =~= before.logins);
        }
        let mut m = "Security alert - sign-in verification failed 3 times from a new origin (".to_owned();
        m.append(browser.label());
        m.append(", ");
        m.append(ip);
        m.append("). That device/network is blocked for ");
        m.append(i64_text(hours as i64).as_str());
        m.append(" hours. If this wasn't you, change your password now.");
        m
    }
}

/// The very first sign-in of a user is never new.
pub proof fn law_first_sign_in_is_not_new(ls: Seq<LoginView>, user: i64, browser: Browser, ip: Seq<char>)
    requires
        history(ls, user, browser, ip).0 == 0,
    ensures
        !origin_new_spec(ls, user, browser, ip),
{
}

/// Once a user signed in from an origin, that origin is known: signing in
/// from it again needs no step-up code.
pub proof fn law_recorded_origin_is_known(ls: Seq<LoginView>, l: LoginView)
    ensures
        !origin_new_spec(ls.push(l), l.user_id, l.browser, l.ip),
{
    assert(ls.push(l).drop_last() =~= ls);
    lemma_history_nonnegative(ls, l.user_id, l.browser, l.ip);
}

/// The counts of a history are never negative.
proof fn lemma_history_nonnegative(ls: Seq<LoginView>, user: i64, browser: Browser, ip: Seq<char>)
    ensures
        history(ls, user, browser, ip).0 >= 0,
        history(ls, user, browser, ip).1 >= 0,
        history(ls, user, browser, ip).2 >= 0,
    decreases ls.len(),
{
    if ls.len() > 0 {
        lemma_history_nonnegative(ls.drop_last(), user, browser, ip);
    }
}

/// A block bars its origin until it lifts, and not after.
pub proof fn law_block_lasts_its_hours(bs: Seq<BlockView>, b: BlockView, t: int)
    requires
        forall|k: int| 0 <= k < bs.len() ==> (#[trigger] bs[k]).until <= b.until,
    ensures
        t < b.until ==> blocked_spec(bs.push(b), b.user_id, b.browser, b.ip, t),
        t >= b.until ==> !blocked_spec(bs.push(b), b.user_id, b.browser, b.ip, t),
{
    let s = bs.push(b);
    if t < b.until {
        assert(s[bs.len() as int] == b);
    }
    if t >= b.until {
        assert forall|k: int| 0 <= k < s.len() implies !((#[trigger] s[k]).user_id == b.user_id && s[k].browser == b.browser && s[k].ip == b.ip && s[k].until > t) by {
            if k < bs.len() {
                assert(s[k] == bs[k]);
            }
        }
    }
}

} // verus!
