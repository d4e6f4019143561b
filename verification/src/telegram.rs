//! The Telegram bot: linking a chat to an account with a single-use code,
//! the delayed unlink, and the bot's replies.
//!
//! A user links by sending `/start <code>` with the code from the settings
//! page; the code then stops working. `/unlink` from the chat never takes
//! effect at once: it is scheduled a day out, so a thief inside a stolen
//! Telegram account cannot silence the owner's alerts, and the owner can
//! cancel it from the website.

use vstd::prelude::*;
use crate::effects::{event1, event_view, num, num_field, Effects, EventView};
use crate::text::{same_text, starts_with, starts_with_seq, trim, trimmed};

verus! {

/// A way to hand a user their one-time codes and notifications out of
/// band.
pub trait OtpChannel {
    /// Tries to deliver `otp` to `user_id`; `false` means the page shows
    /// the code instead.
    fn send_otp(&self, user_id: i64, otp: &str) -> bool;

    /// Tries to deliver a notification; not delivered unless a channel
    /// says otherwise.
    fn send_note(&self, user_id: i64, text: &str) -> (delivered: bool)
        default_ensures
            !delivered,
    {
        false
    }
}

/// Hands code `code` for `user` to `channel`, once; returns the channel's
/// answer.
pub fn offer_code<C: OtpChannel>(channel: &C, user: i64, code: &String) -> (delivered: bool)
    ensures
        exists|s: &str| s@ == code@ && #[trigger] C::send_otp.ensures((channel, user, s), delivered),
{
    let shown = code.as_str();
    let delivered = channel.send_otp(user, shown);
    proof {
        assert(C::send_otp.ensures((channel, user, shown), delivered));
    }
    delivered
}

/// The on-screen channel: it never delivers, so codes are shown on the
/// confirmation page.
pub struct ScreenOtp;

impl OtpChannel for ScreenOtp {
    fn send_otp(&self, user_id: i64, otp: &str) -> (delivered: bool)
        ensures
            !delivered,
    {
        false
    }
}

/// A bot-requested unlink takes effect a day later, in microseconds.
pub const UNLINK_DELAY_MICROS: i64 = 86_400_000_000;

/// A command sent to the bot.
#[derive(Clone, Debug)]
pub enum BotCommand {
    /// `/start` with a link code.
    Start(String),
    /// `/start` alone.
    StartBare,
    Unlink,
    /// `/help`, or anything else.
    Help,
}

/// The command a (non-blank) message carries: `(0, code)` for `/start
/// <code>`, `(1, _)` for a bare `/start`, `(2, _)` for `/unlink`, `(3, _)`
/// otherwise; `None` for a blank message, which the bot ignores.
pub open spec fn command_spec(text: Seq<char>) -> Option<(int, Seq<char>)> {
    let t = trimmed(text);
    if t.len() == 0 {
        None
    } else if starts_with_seq(t, "/start"@) {
        let code = trimmed(t.subrange(6, t.len() as int));
        if code.len() == 0 {
            Some((1, Seq::empty()))
        } else {
            Some((0, code))
        }
    } else if starts_with_seq(t, "/unlink"@) {
        Some((2, Seq::empty()))
    } else {
        Some((3, Seq::empty()))
    }
}

/// The view of a command.
pub open spec fn command_view(c: BotCommand) -> (int, Seq<char>) {
    match c {
        BotCommand::Start(code) => (0, code@),
        BotCommand::StartBare => (1, Seq::empty()),
        BotCommand::Unlink => (2, Seq::empty()),
        BotCommand::Help => (3, Seq::empty()),
    }
}

/// Reads the command of a message; `None` for a blank one.
pub fn parse_command(text: &str) -> (r: Option<BotCommand>)
    ensures
        match r {
            Some(c) => command_spec(text@) == Some(command_view(c)),
            None => command_spec(text@) is None,
        },
{
    proof {
        reveal_strlit("/start");
    }
    let t = trim(text);
    let n = t.unicode_len();
    if n == 0 {
        return None;
    }
    if starts_with(t, "/start") {
        let rest = t.substring_char(6, n);
        let code = trim(rest);
        if code.unicode_len() == 0 {
            Some(BotCommand::StartBare)
        } else {
            Some(BotCommand::Start(code.to_owned()))
        }
    } else if starts_with(t, "/unlink") {
        Some(BotCommand::Unlink)
    } else {
        Some(BotCommand::Help)
    }
}

/// The next update offset after seeing update `update_id`.
pub fn next_offset(offset: i64, update_id: i64) -> (r: i64)
    requires
        update_id < i64::MAX,
    ensures
        r == if offset > update_id + 1 {
            offset as int
        } else {
            update_id + 1
        },
{
    if offset > update_id + 1 {
        offset
    } else {
        update_id + 1
    }
}

/// The message that carries a one-time code.
pub open spec fn otp_message_spec(otp: Seq<char>) -> Seq<char> {
    "\u{1F510} FerroBank verification code: "@ + otp
        + "\n\nEnter it on the confirmation page to continue. If you didn't request a code, sign in and review your account."@
}

/// The Telegram message delivering `otp`.
pub fn otp_message(otp: &str) -> (s: String)
    ensures
        s@ == otp_message_spec(otp@),
{
    let mut s = "\u{1F510} FerroBank verification code: ".to_owned();
    s.append(otp);
    s.append("\n\nEnter it on the confirmation page to continue. If you didn't request a code, sign in and review your account.");
    s
}

/// The reply to a bare `/start`.
pub open spec fn start_help_reply() -> Seq<char> {
    "Open FerroBank \u{2192} Settings \u{2192} Telegram codes, and tap the link there to connect your account.\n\nCommands: /unlink, /help"@
}

/// The reply to a code that links no account.
pub open spec fn unknown_code_reply() -> Seq<char> {
    "That link code wasn't recognised (codes are single-use). Generate a fresh link from the FerroBank settings page and try again."@
}

/// The reply once a chat is linked to `name`'s account.
pub open spec fn linked_reply(name: Seq<char>) -> Seq<char> {
    "\u{2705} Linked! Hi "@ + name
        + " - your FerroBank one-time codes will arrive in this chat from now on.\n\nSend /unlink at any time to disconnect."@
}

/// The reply once an unlink is scheduled.
pub open spec fn unlink_scheduled_reply() -> Seq<char> {
    "\u{23F3} Unlink scheduled: this chat stops receiving FerroBank codes and alerts in 24 hours. If this wasn't you, cancel it from the FerroBank website (Settings) and change your password immediately."@
}

/// The reply to `/unlink` when there is nothing to unlink.
pub open spec fn nothing_to_unlink_reply() -> Seq<char> {
    "No FerroBank account is linked to this chat, or an unlink is already scheduled."@
}

/// The reply to `/help` and anything unrecognised.
pub open spec fn help_reply() -> Seq<char> {
    "FerroBank bot commands:\n/start \u{2014} link your FerroBank account (use the button on the Settings page)\n/unlink \u{2014} stop receiving codes here and unlink this chat\n/help \u{2014} show this message"@
}

/// The notice a user gets when an unlink is scheduled from the chat.
pub open spec fn unlink_notice_spec() -> Seq<char> {
    "Telegram unlink was requested from your chat and is scheduled in 24 hours. If this wasn't you, cancel it in Settings and change your password now."@
}

/// The reply to a bare `/start`.
pub fn start_help() -> (s: String)
    ensures
        s@ == start_help_reply(),
{
    "Open FerroBank \u{2192} Settings \u{2192} Telegram codes, and tap the link there to connect your account.\n\nCommands: /unlink, /help".to_owned()
}

/// The reply to `/help` and anything unrecognised.
pub fn help_text() -> (s: String)
    ensures
        s@ == help_reply(),
{
    "FerroBank bot commands:\n/start \u{2014} link your FerroBank account (use the button on the Settings page)\n/unlink \u{2014} stop receiving codes here and unlink this chat\n/help \u{2014} show this message".to_owned()
}

/// The notice a user gets when an unlink is scheduled from the chat.
pub fn unlink_notice() -> (s: String)
    ensures
        s@ == unlink_notice_spec(),
{
    "Telegram unlink was requested from your chat and is scheduled in 24 hours. If this wasn't you, cancel it in Settings and change your password now.".to_owned()
}

/// A user's Telegram link.
pub struct LinkRec {
    pub user_id: i64,
    pub full_name: String,
    pub chat_id: Option<i64>,
    /// The single-use code that links a chat, while one is outstanding.
    pub link_code: Option<String>,
    /// When a bot-requested unlink takes effect.
    pub unlink_at: Option<i64>,
}

/// The view of a [`LinkRec`].
pub struct LinkView {
    pub user_id: i64,
    pub full_name: Seq<char>,
    pub chat_id: Option<i64>,
    pub link_code: Option<Seq<char>>,
    pub unlink_at: Option<i64>,
}

impl View for LinkRec {
    type V = LinkView;

    open spec fn view(&self) -> LinkView {
        LinkView {
            user_id: self.user_id,
            full_name: self.full_name@,
            chat_id: self.chat_id,
            link_code: match self.link_code {
                Some(c) => Some(c@),
                None => None,
            },
            unlink_at: self.unlink_at,
        }
    }
}

/// The events `telegram.unlink_scheduled`, one by each user in `users`,
/// for chat `chat`.
pub open spec fn unlink_events(users: Seq<i64>, chat: i64) -> Seq<EventView> {
    Seq::new(
        users.len(),
        |i: int| event_view(Some(users[i]), "telegram.unlink_scheduled"@, seq![num("chat_id"@, chat)]),
    )
}

/// Every user's Telegram link.
pub struct Links {
    rows: Vec<LinkRec>,
}

impl View for Links {
    type V = Seq<LinkView>;

    closed spec fn view(&self) -> Seq<LinkView> {
        Seq::new(self.rows@.len(), |i: int| self.rows@[i]@)
    }
}

/// The first row holding link code `code`.
pub open spec fn code_holder(rows: Seq<LinkView>, code: Seq<char>) -> Option<int>
    decreases rows.len(),
{
    if rows.len() == 0 {
        None
    } else {
        match code_holder(rows.drop_last(), code) {
            Some(k) => Some(k),
            None => if rows.last().link_code == Some(code) {
                Some(rows.len() - 1)
            } else {
                None
            },
        }
    }
}

/// Whether row `r` is linked to `chat` with no unlink scheduled.
pub open spec fn unlinkable(r: LinkView, chat: i64) -> bool {
    r.chat_id == Some(chat) && r.unlink_at is None
}

/// `/start <code>` from `chat`: the holder of the code is linked to the
/// chat and the code is spent.
pub open spec fn start_spec(rows: Seq<LinkView>, chat: i64, code: Seq<char>) -> (Seq<LinkView>, Seq<char>) {
    match code_holder(rows, code) {
        None => (rows, unknown_code_reply()),
        Some(k) => (
            rows.update(k, LinkView { chat_id: Some(chat), link_code: None, ..rows[k] }),
            linked_reply(rows[k].full_name),
        ),
    }
}

/// `/unlink` from `chat` at `now`: every account linked to the chat
/// without a scheduled unlink gets one a day out.
pub open spec fn unlink_spec(rows: Seq<LinkView>, chat: i64, now: int) -> Seq<LinkView> {
    Seq::new(
        rows.len(),
        |i: int|
            if unlinkable(rows[i], chat) {
                LinkView { unlink_at: Some((now + UNLINK_DELAY_MICROS) as i64), ..rows[i] }
            } else {
                rows[i]
            },
    )
}

/// The users whose unlink `/unlink` from `chat` schedules, in row order.
pub open spec fn unlink_users(rows: Seq<LinkView>, chat: i64) -> Seq<i64>
    decreases rows.len(),
{
    if rows.len() == 0 {
        Seq::empty()
    } else {
        let p = unlink_users(rows.drop_last(), chat);
        if unlinkable(rows.last(), chat) {
            p.push(rows.last().user_id)
        } else {
            p
        }
    }
}

/// Whether any account is linked to `chat` with no unlink scheduled.
pub open spec fn any_unlinkable(rows: Seq<LinkView>, chat: i64) -> bool {
    exists|i: int| 0 <= i < rows.len() && unlinkable(#[trigger] rows[i], chat)
}

impl Links {
    /// No links.
    pub fn new() -> (l: Links)
        ensures
            l@.len() == 0,
    {
        Links { rows: Vec::new() }
    }

    /// Adds `user` with no link.
    pub fn add_user(&mut self, user: i64, full_name: String)
        ensures
            final(self)@ == old(self)@.push(
                LinkView { user_id: user, full_name: full_name@, chat_id: None, link_code: None, unlink_at: None },
            ),
    {
        let ghost before = self@;
        self.rows.push(LinkRec { user_id: user, full_name, chat_id: None, link_code: None, unlink_at: None });
        proof {
            assert(self@ =~= before.push(self.rows@[self.rows@.len() - 1]@));
        }
    }

    /// Gives row `k` a fresh link code (from the settings page).
    pub fn set_link_code(&mut self, k: usize, code: String)
        requires
            k < old(self)@.len(),
        ensures
            final(self)@ == old(self)@.update(k as int, LinkView { link_code: Some(code@), ..old(self)@[k as int] }),
    {
        let ghost before = self@;
        let r = &self.rows[k];
        let row = LinkRec {
            user_id: r.user_id,
            full_name: r.full_name.clone(),
            chat_id: r.chat_id,
            link_code: Some(code),
            unlink_at: r.unlink_at,
        };
        self.rows.set(k, row);
        proof {
            assert(self@ =~= before.update(k as int, LinkView { link_code: Some(self.rows@[k as int].link_code->0@), ..before[k as int] }));
        }
    }

    /// The chat of row `k`, if linked.
    pub fn chat_of(&self, k: usize) -> (r: Option<i64>)
        requires
            k < self@.len(),
        ensures
            r == self@[k as int].chat_id,
    {
        assert(self@[k as int] == self.rows@[k as int]@);
        self.rows[k].chat_id
    }

    /// `/start <code>` from `chat`; returns the reply.
    pub fn start(&mut self, chat: i64, code: &str) -> (reply: String)
        ensures
            final(self)@ == start_spec(old(self)@, chat, code@).0,
            reply@ == start_spec(old(self)@, chat, code@).1,
    {
        let ghost rows = self@;
        let n = self.rows.len();
        let mut i: usize = 0;
        while i < n
            invariant
                rows == self@,
                rows == old(self)@,
                n == rows.len(),
                i <= n,
                code_holder(rows.subrange(0, i as int), code@) is None,
            decreases n - i,
        {
            proof {
                assert(rows.subrange(0, i + 1).drop_last() =~= rows.subrange(0, i as int));
                assert(rows.subrange(0, i + 1).last() == self.rows@[i as int]@);
            }
            let hit = match &self.rows[i].link_code {
                Some(c) => same_text(c.as_str(), code),
                None => false,
            };
            if hit {
                proof {
                    lemma_code_holder_prefix(rows, code@, i as int);
                }
                let r = &self.rows[i];
                let name = r.full_name.clone();
                let row = LinkRec {
                    user_id: r.user_id,
                    full_name: r.full_name.clone(),
                    chat_id: Some(chat),
                    link_code: None,
                    unlink_at: r.unlink_at,
                };
                self.rows.set(i, row);
                proof {
                    assert(self@ =~= rows.update(i as int, LinkView { chat_id: Some(chat), link_code: None, ..rows[i as int] }));
                }
                let mut m = "\u{2705} Linked! Hi ".to_owned();
                m.append(name.as_str());
                m.append(" - your FerroBank one-time codes will arrive in this chat from now on.\n\nSend /unlink at any time to disconnect.");
                return m;
            }
            i = i + 1;
        }
        proof {
            assert(rows.subrange(0, n as int) =~= rows);
        }
        "That link code wasn't recognised (codes are single-use). Generate a fresh link from the FerroBank settings page and try again.".to_owned()
    }

    /// `/unlink` from `chat` at `now`; returns the reply and the users to
    /// notify, and adds an event `telegram.unlink_scheduled` for each of
    /// them to `fx`.
    pub fn unlink(&mut self, chat: i64, now: i64, fx: &mut Effects) -> (r: (String, Vec<i64>))
        requires
            0 <= now <= i64::MAX - UNLINK_DELAY_MICROS,
        ensures
            final(self)@ == unlink_spec(old(self)@, chat, now as int),
            final(fx)@ == (old(fx)@.0 + unlink_events(unlink_users(old(self)@, chat), chat), old(fx)@.1),
            r.0@ == if any_unlinkable(old(self)@, chat) {
                unlink_scheduled_reply()
            } else {
                nothing_to_unlink_reply()
            },
            r.1@ == unlink_users(old(self)@, chat),
    {
        let ghost rows = self@;
        let n = self.rows.len();
        let mut users: Vec<i64> = Vec::new();
        let mut i: usize = 0;
        let at = now + UNLINK_DELAY_MICROS;
        while i < n
            invariant
                n == rows.len(),
                i <= n,
                self@.len() == n,
                at == now + UNLINK_DELAY_MICROS,
                forall|k: int| 0 <= k < i ==> self@[k] == unlink_spec(rows, chat, now as int)[k],
                forall|k: int| i <= k < n ==> self@[k] == rows[k],
                rows == old(self)@,
                users@ == unlink_users(rows.subrange(0, i as int), chat),
                users@.len() > 0 <==> exists|k: int| 0 <= k < i && unlinkable(#[trigger] rows[k], chat),
            decreases n - i,
        {
            assert(self@[i as int] == self.rows@[i as int]@);
            let due = self.rows[i].chat_id == Some(chat) && self.rows[i].unlink_at.is_none();
            if due {
                let ghost before = self@;
                let r = &self.rows[i];
                let uid = r.user_id;
                let row = LinkRec {
                    user_id: r.user_id,
                    full_name: r.full_name.clone(),
                    chat_id: r.chat_id,
                    link_code: match &r.link_code {
                        Some(c) => Some(c.clone()),
                        None => None,
                    },
                    unlink_at: Some(at),
                };
                self.rows.set(i, row);
                proof {
                    assert(self@ =~= before.update(i as int, LinkView { unlink_at: Some(at), ..before[i as int] }));
                }
                users.push(uid);
            }
            proof {
                assert(rows.subrange(0, i + 1).drop_last() =~= rows.subrange(0, i as int));
                assert(rows.subrange(0, i + 1).last() == rows[i as int]);
                if due {
                    assert(unlinkable(rows[i as int], chat));
                } else {
                    assert(!unlinkable(rows[i as int], chat));
                    if exists|k: int| 0 <= k < i + 1 && unlinkable(#[trigger] rows[k], chat) {
                        let k = choose|k: int| 0 <= k < i + 1 && unlinkable(#[trigger] rows[k], chat);
                        assert(k < i);
                    }
                }
            }
            i = i + 1;
        }
        proof {
            assert(self@ =~= unlink_spec(rows, chat, now as int));
            assert(rows.subrange(0, n as int) =~= rows);
        }
        let ghost f0 = fx@;
        let m = users.len();
        let mut j: usize = 0;
        while j < m
            invariant
                j <= m,
                m == users@.len(),
                users@ == unlink_users(rows, chat),
                fx@.0 == f0.0 + unlink_events(users@.subrange(0, j as int), chat),
                fx@.1 == f0.1,
            decreases m - j,
        {
            let ghost before = fx@;
            fx.emit(event1(Some(users[j]), "telegram.unlink_scheduled", num_field("chat_id", chat)));
            proof {
                assert(unlink_events(users@.subrange(0, j + 1), chat) =~= unlink_events(users@.subrange(0, j as int), chat).push(
                    event_view(Some(users@[j as int]), "telegram.unlink_scheduled"@, seq![num("chat_id"@, chat)]),
                ));
                assert(fx@.0 =~= f0.0 + unlink_events(users@.subrange(0, j + 1), chat));
                assert(fx@.1 =~= f0.1);
            }
            j = j + 1;
        }
        proof {
            assert(users@.subrange(0, m as int) =~= users@);
        }
        let reply = if users.len() > 0 {
            "\u{23F3} Unlink scheduled: this chat stops receiving FerroBank codes and alerts in 24 hours. If this wasn't you, cancel it from the FerroBank website (Settings) and change your password immediately.".to_owned()
        } else {
            "No FerroBank account is linked to this chat, or an unlink is already scheduled.".to_owned()
        };
        (reply, users)
    }

    /// Completes row `k`'s scheduled unlink once it is due at `now`.
    pub fn apply_due_unlink(&mut self, k: usize, now: i64)
        requires
            k < old(self)@.len(),
        ensures
            final(self)@ == if (match old(self)@[k as int].unlink_at {
                Some(t) => t <= now,
                None => false,
            }) {
                old(self)@.update(k as int, LinkView { chat_id: None, unlink_at: None, ..old(self)@[k as int] })
            } else {
                old(self)@
            },
    {
        assert(self@[k as int] == self.rows@[k as int]@);
        let due = match self.rows[k].unlink_at {
            Some(t) => t <= now,
            None => false,
        };
        if due {
            let ghost before = self@;
            let r = &self.rows[k];
            let row = LinkRec {
                user_id: r.user_id,
                full_name: r.full_name.clone(),
                chat_id: None,
                link_code: match &r.link_code {
                    Some(c) => Some(c.clone()),
                    None => None,
                },
                unlink_at: None,
            };
            self.rows.set(k, row);
            proof {
                assert(self@ =~= before.update(k as int, LinkView { chat_id: None, unlink_at: None, ..before[k as int] }));
            }
        }
    }
}

/// The first holder of a code among the first `i + 1` rows, when none of
/// the first `i` hold it, is row `i`.
proof fn lemma_code_holder_prefix(rows: Seq<LinkView>, code: Seq<char>, i: int)
    requires
        0 <= i < rows.len(),
        code_holder(rows.subrange(0, i), code) is None,
        rows[i].link_code == Some(code),
    ensures
        code_holder(rows, code) == Some(i),
{
    assert(rows.subrange(0, i + 1).drop_last() =~= rows.subrange(0, i));
    assert(rows.subrange(0, i + 1).last() == rows[i]);
    lemma_code_holder_extend(rows, code, i + 1);
}

/// A code held within the first `j` rows is found there.
proof fn lemma_code_holder_extend(rows: Seq<LinkView>, code: Seq<char>, j: int)
    requires
        0 < j <= rows.len(),
        code_holder(rows.subrange(0, j), code) is Some,
    ensures
        code_holder(rows, code) == code_holder(rows.subrange(0, j), code),
    decreases rows.len() - j,
{
    if j < rows.len() {
        assert(rows.subrange(0, j + 1).drop_last() =~= rows.subrange(0, j));
        lemma_code_holder_extend(rows, code, j + 1);
    } else {
        assert(rows.subrange(0, j) =~= rows);
    }
}

/// A link code links one chat once: sending it again links nothing.
pub proof fn law_link_code_is_single_use(rows: Seq<LinkView>, chat: i64, code: Seq<char>, chat2: i64)
    requires
        code_holder(rows, code) is Some,
        forall|i: int, j: int| 0 <= i < j < rows.len() && rows[i].link_code == Some(code) ==> rows[j].link_code != Some(code),
    ensures
        code_holder(start_spec(rows, chat, code).0, code) is None,
        start_spec(start_spec(rows, chat, code).0, chat2, code).1 == unknown_code_reply(),
{
    let k = code_holder(rows, code)->0;
    lemma_code_holder_found(rows, code);
    let rows1 = start_spec(rows, chat, code).0;
    lemma_no_holder(rows1, code);
}

/// The holder a search finds holds the code, and nothing before it does.
proof fn lemma_code_holder_found(rows: Seq<LinkView>, code: Seq<char>)
    ensures
        code_holder(rows, code) matches Some(k) ==> 0 <= k < rows.len() && rows[k].link_code == Some(code),
        code_holder(rows, code) is None ==> forall|i: int| 0 <= i < rows.len() ==> rows[i].link_code != Some(code),
    decreases rows.len(),
{
    if rows.len() > 0 {
        lemma_code_holder_found(rows.drop_last(), code);
        assert forall|i: int| 0 <= i < rows.len() - 1 implies rows.drop_last()[i] == rows[i] by {}
    }
}

/// With no row holding the code, the search finds nothing.
proof fn lemma_no_holder(rows: Seq<LinkView>, code: Seq<char>)
    requires
        forall|i: int| 0 <= i < rows.len() ==> rows[i].link_code != Some(code),
    ensures
        code_holder(rows, code) is None,
    decreases rows.len(),
{
    if rows.len() > 0 {
        assert forall|i: int| 0 <= i < rows.len() - 1 implies rows.drop_last()[i].link_code != Some(code) by {
            assert(rows.drop_last()[i] == rows[i]);
        }
        lemma_no_holder(rows.drop_last(), code);
    }
}

/// An unlink from the chat is never immediate: the chat stays linked until
/// the scheduled time, a day later.
pub proof fn law_bot_unlink_waits_a_day(rows: Seq<LinkView>, chat: i64, now: int, k: int)
    requires
        0 <= k < rows.len(),
        unlinkable(rows[k], chat),
        0 <= now <= i64::MAX - UNLINK_DELAY_MICROS,
    ensures
        unlink_spec(rows, chat, now)[k].chat_id == Some(chat),
        unlink_spec(rows, chat, now)[k].unlink_at == Some((now + UNLINK_DELAY_MICROS) as i64),
{
}

} // verus!
