//! Per-user notifications, shown as browser toasts: each one is handed out
//! exactly once.

use vstd::prelude::*;

verus! {

/// A queued notification.
pub struct Notification {
    pub user_id: i64,
    pub message: String,
    pub seen: bool,
}

/// The view of a [`Notification`].
pub struct NotificationView {
    pub user_id: i64,
    pub message: Seq<char>,
    pub seen: bool,
}

impl View for Notification {
    type V = NotificationView;

    open spec fn view(&self) -> NotificationView {
        NotificationView { user_id: self.user_id, message: self.message@, seen: self.seen }
    }
}

/// Every user's notifications.
pub struct Inbox {
    rows: Vec<Notification>,
}

impl View for Inbox {
    type V = Seq<NotificationView>;

    closed spec fn view(&self) -> Seq<NotificationView> {
        Seq::new(self.rows@.len(), |i: int| self.rows@[i]@)
    }
}

/// `user`'s unseen messages, oldest first.
pub open spec fn unseen_of(rows: Seq<NotificationView>, user: i64) -> Seq<Seq<char>>
    decreases rows.len(),
{
    if rows.len() == 0 {
        Seq::empty()
    } else {
        let p = unseen_of(rows.drop_last(), user);
        if rows.last().user_id == user && !rows.last().seen {
            p.push(rows.last().message)
        } else {
            p
        }
    }
}

/// The rows with all of `user`'s notifications marked seen.
pub open spec fn mark_seen(rows: Seq<NotificationView>, user: i64) -> Seq<NotificationView> {
    Seq::new(
        rows.len(),
        |i: int|
            if rows[i].user_id == user {
                NotificationView { seen: true, ..rows[i] }
            } else {
                rows[i]
            },
    )
}

impl Inbox {
    /// No notifications.
    pub fn new() -> (i: Inbox)
        ensures
            i@.len() == 0,
    {
        Inbox { rows: Vec::new() }
    }

    /// Queues `message` for `user`.
    pub fn notify(&mut self, user: i64, message: &str)
        ensures
            final(self)@ == old(self)@.push(NotificationView { user_id: user, message: message@, seen: false }),
    {
        let ghost before = self@;
        self.rows.push(Notification { user_id: user, message: message.to_owned(), seen: false });
        proof {
            assert(self@ =~= before.push(self.rows@[self.rows@.len() - 1]@));
        }
    }

    /// Hands out `user`'s unseen messages, oldest first, and marks them seen.
    pub fn take_unseen(&mut self, user: i64) -> (r: Vec<String>)
        ensures
            r@.len() == unseen_of(old(self)@, user).len(),
            forall|k: int| 0 <= k < r@.len() ==> (#[trigger] r@[k])@ == unseen_of(old(self)@, user)[k],
            final(self)@ == mark_seen(old(self)@, user),
    {
        let ghost rows = self@;
        let n = self.rows.len();
        let mut out: Vec<String> = Vec::new();
        let mut i: usize = 0;
        while i < n
            invariant
                n == rows.len(),
                i <= n,
                self@.len() == n,
                forall|k: int| 0 <= k < i ==> self@[k] == mark_seen(rows, user)[k],
                forall|k: int| i <= k < n ==> self@[k] == rows[k],
                out@.len() == unseen_of(rows.subrange(0, i as int), user).len(),
                forall|k: int| 0 <= k < out@.len() ==> (#[trigger] out@[k])@ == unseen_of(rows.subrange(0, i as int), user)[k],
            decreases n - i,
        {
            assert(self@[i as int] == self.rows@[i as int]@);
            proof {
                assert(rows.subrange(0, i + 1).drop_last() =~= rows.subrange(0, i as int));
                assert(rows.subrange(0, i + 1).last() == rows[i as int]);
            }
            if self.rows[i].user_id == user {
                if !self.rows[i].seen {
                    out.push(self.rows[i].message.clone());
                }
                let ghost before = self@;
                let row = Notification { user_id: user, message: self.rows[i].message.clone(), seen: true };
                self.rows.set(i, row);
                proof {
                    assert(self@ =~= before.update(i as int, NotificationView { seen: true, ..before[i as int] }));
                }
            }
            i = i + 1;
        }
        proof {
            assert(rows.subrange(0, n as int) =~= rows);
            assert(self@ =~= mark_seen(rows, user));
        }
        out
    }
}

/// Nothing is left unseen for a user once their notifications were taken.
proof fn lemma_nothing_unseen_after_marking(rows: Seq<NotificationView>, user: i64)
    ensures
        unseen_of(mark_seen(rows, user), user).len() == 0,
    decreases rows.len(),
{
    if rows.len() > 0 {
        assert(mark_seen(rows, user).drop_last() =~= mark_seen(rows.drop_last(), user));
        lemma_nothing_unseen_after_marking(rows.drop_last(), user);
    }
}

/// Each toast fires exactly once: taking a user's notifications twice in a
/// row hands out nothing the second time.
pub proof fn law_notifications_are_taken_once(rows: Seq<NotificationView>, user: i64)
    ensures
        unseen_of(mark_seen(rows, user), user).len() == 0,
{
    lemma_nothing_unseen_after_marking(rows, user);
}

/// An entry of the append-only audit log.
pub struct AuditEntry {
    pub id: i64,
    pub actor_user_id: Option<i64>,
    /// Dotted event name, such as `transfer.completed`.
    pub event: String,
    /// The event's structured details, serialised.
    pub payload: String,
    /// When, in microseconds.
    pub created_at: i64,
}

/// The view of an [`AuditEntry`].
pub struct AuditView {
    pub id: i64,
    pub actor_user_id: Option<i64>,
    pub event: Seq<char>,
    pub payload: Seq<char>,
    pub created_at: i64,
}

impl View for AuditEntry {
    type V = AuditView;

    open spec fn view(&self) -> AuditView {
        AuditView {
            id: self.id,
            actor_user_id: self.actor_user_id,
            event: self.event@,
            payload: self.payload@,
            created_at: self.created_at,
        }
    }
}

/// The append-only audit log.
pub struct AuditLog {
    entries: Vec<AuditEntry>,
}

impl View for AuditLog {
    type V = Seq<AuditView>;

    closed spec fn view(&self) -> Seq<AuditView> {
        Seq::new(self.entries@.len(), |i: int| self.entries@[i]@)
    }
}

/// The newest `limit` entries, newest first.
pub open spec fn recent_spec(log: Seq<AuditView>, limit: int) -> Seq<AuditView> {
    let k = if limit < 0 {
        0
    } else if limit > log.len() {
        log.len() as int
    } else {
        limit
    };
    Seq::new(k as nat, |i: int| log[log.len() - 1 - i])
}

impl AuditLog {
    /// An empty log.
    pub fn new() -> (l: AuditLog)
        ensures
            l@.len() == 0,
    {
        AuditLog { entries: Vec::new() }
    }

    /// The number of entries.
    pub fn len(&self) -> (n: usize)
        ensures
            n == self@.len(),
    {
        self.entries.len()
    }

    /// Appends an event; earlier entries never change.
    pub fn record(&mut self, actor: Option<i64>, event: &str, payload: String, now: i64)
        requires
            old(self)@.len() + 1 < i64::MAX,
        ensures
            final(self)@ == old(self)@.push(
                AuditView {
                    id: (old(self)@.len() + 1) as i64,
                    actor_user_id: actor,
                    event: event@,
                    payload: payload@,
                    created_at: now,
                },
            ),
    {
        let ghost before = self@;
        let id = self.entries.len() as i64 + 1;
        self.entries.push(AuditEntry { id, actor_user_id: actor, event: event.to_owned(), payload, created_at: now });
        proof {
            assert(self@ =~= before.push(self.entries@[self.entries@.len() - 1]@));
        }
    }

    /// The newest `limit` entries, newest first.
    pub fn recent(&self, limit: i64) -> (r: Vec<AuditEntry>)
        ensures
            r@.len() == recent_spec(self@, limit as int).len(),
            forall|k: int| 0 <= k < r@.len() ==> (#[trigger] r@[k])@ == recent_spec(self@, limit as int)[k],
    {
        let n = self.entries.len();
        let k: usize = if limit < 0 {
            0
        } else if (limit as u64) > (n as u64) {
            n
        } else {
            limit as usize
        };
        let mut out: Vec<AuditEntry> = Vec::new();
        let mut i: usize = 0;
        while i < k
            invariant
                n == self@.len(),
                k <= n,
                k == recent_spec(self@, limit as int).len(),
                i <= k,
                out@.len() == i,
                forall|j: int| 0 <= j < i ==> (#[trigger] out@[j])@ == recent_spec(self@, limit as int)[j],
            decreases k - i,
        {
            let e = &self.entries[n - 1 - i];
            assert(self@[n - 1 - i] == e@);
            out.push(AuditEntry {
                id: e.id,
                actor_user_id: e.actor_user_id,
                event: e.event.clone(),
                payload: e.payload.clone(),
                created_at: e.created_at,
            });
            i = i + 1;
        }
        out
    }
}

} // verus!
