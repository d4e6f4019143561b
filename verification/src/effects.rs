//! What an operation leaves to be announced: events for the audit log and
//! notices for the customers involved. Operations return them; the server
//! records the events and delivers the notices (toast and Telegram), with
//! the names of the people involved looked up at delivery.

use vstd::prelude::*;
use crate::transfer::{
    denied_notice, denied_notice_spec, freeze_notice, hold_notice, hold_notice_spec, received_notice,
    received_notice_spec, released_notice, released_notice_spec, sent_notice, sent_notice_spec,
};

verus! {

/// A value among an event's details: a number or a text.
#[derive(Debug)]
pub enum Detail {
    Num(i64),
    Text(String),
    Flag(bool),
}

/// The view of a [`Detail`].
pub enum DetailView {
    Num(i64),
    Text(Seq<char>),
    Flag(bool),
}

impl View for Detail {
    type V = DetailView;

    open spec fn view(&self) -> DetailView {
        match self {
            Detail::Num(n) => DetailView::Num(*n),
            Detail::Text(s) => DetailView::Text(s@),
            Detail::Flag(b) => DetailView::Flag(*b),
        }
    }
}

/// One named detail of an event.
#[derive(Debug)]
pub struct Field {
    pub key: String,
    pub value: Detail,
}

impl View for Field {
    type V = (Seq<char>, DetailView);

    open spec fn view(&self) -> (Seq<char>, DetailView) {
        (self.key@, self.value@)
    }
}

/// An event for the audit log: who acted, its dotted name and its details.
#[derive(Debug)]
pub struct Event {
    pub actor: Option<i64>,
    pub name: String,
    pub fields: Vec<Field>,
}

/// The view of an [`Event`].
pub struct EventView {
    pub actor: Option<i64>,
    pub name: Seq<char>,
    pub fields: Seq<(Seq<char>, DetailView)>,
}

/// The views of a list of fields.
pub open spec fn fields_view(fs: Seq<Field>) -> Seq<(Seq<char>, DetailView)> {
    Seq::new(fs.len(), |i: int| fs[i]@)
}

impl View for Event {
    type V = EventView;

    open spec fn view(&self) -> EventView {
        EventView { actor: self.actor, name: self.name@, fields: fields_view(self.fields@) }
    }
}

/// A message for a customer. The names it shows are those of the users
/// it refers to, looked up when it is delivered.
#[derive(Debug)]
pub enum Notice {
    /// To `user`: their transfer of `amount` to `recipient` completed.
    Sent { user: i64, amount: i64, recipient: i64 },
    /// To `user`: they received `amount` from `sender`.
    Received { user: i64, amount: i64, sender: i64 },
    /// To `user`: their transfer of `amount` is on hold for `reason`.
    Held { user: i64, amount: i64, reason: String },
    /// To `user`: their held transfer of `amount` to `recipient` was released.
    Released { user: i64, amount: i64, recipient: i64 },
    /// To `user`: their held transfer of `amount` was denied for `reason`.
    Denied { user: i64, amount: i64, reason: String },
    /// To `user`: their account was frozen after repeated overdraft attempts.
    Frozen { user: i64 },
}

/// The view of a [`Notice`].
pub enum NoticeView {
    Sent { user: i64, amount: i64, recipient: i64 },
    Received { user: i64, amount: i64, sender: i64 },
    Held { user: i64, amount: i64, reason: Seq<char> },
    Released { user: i64, amount: i64, recipient: i64 },
    Denied { user: i64, amount: i64, reason: Seq<char> },
    Frozen { user: i64 },
}

impl View for Notice {
    type V = NoticeView;

    open spec fn view(&self) -> NoticeView {
        match self {
            Notice::Sent { user, amount, recipient } => NoticeView::Sent { user: *user, amount: *amount, recipient: *recipient },
            Notice::Received { user, amount, sender } => NoticeView::Received { user: *user, amount: *amount, sender: *sender },
            Notice::Held { user, amount, reason } => NoticeView::Held { user: *user, amount: *amount, reason: reason@ },
            Notice::Released { user, amount, recipient } => NoticeView::Released { user: *user, amount: *amount, recipient: *recipient },
            Notice::Denied { user, amount, reason } => NoticeView::Denied { user: *user, amount: *amount, reason: reason@ },
            Notice::Frozen { user } => NoticeView::Frozen { user: *user },
        }
    }
}

/// Who a notice is for.
pub open spec fn notice_user(n: NoticeView) -> i64 {
    match n {
        NoticeView::Sent { user, .. } => user,
        NoticeView::Received { user, .. } => user,
        NoticeView::Held { user, .. } => user,
        NoticeView::Released { user, .. } => user,
        NoticeView::Denied { user, .. } => user,
        NoticeView::Frozen { user } => user,
    }
}

/// The text of a notice, `name` being the name of the other user it
/// refers to, if known.
pub open spec fn notice_text_spec(n: NoticeView, name: Option<Seq<char>>) -> Seq<char> {
    match n {
        NoticeView::Sent { amount, .. } => sent_notice_spec(amount as int, name),
        NoticeView::Received { amount, .. } => received_notice_spec(amount as int, name),
        NoticeView::Held { amount, reason, .. } => hold_notice_spec(amount as int, reason),
        NoticeView::Released { amount, .. } => released_notice_spec(amount as int, name),
        NoticeView::Denied { amount, reason, .. } => denied_notice_spec(amount as int, reason),
        NoticeView::Frozen { .. } => "Your account was frozen after repeated attempts to transfer more than its balance. Contact the bank to unfreeze it."@,
    }
}

impl Notice {
    /// The user this notice is for.
    pub fn user(&self) -> (u: i64)
        ensures
            u == notice_user(self@),
    {
        match self {
            Notice::Sent { user, .. } => *user,
            Notice::Received { user, .. } => *user,
            Notice::Held { user, .. } => *user,
            Notice::Released { user, .. } => *user,
            Notice::Denied { user, .. } => *user,
            Notice::Frozen { user } => *user,
        }
    }

    /// The other user whose name the text shows, if any.
    pub fn named_user(&self) -> (u: Option<i64>)
        ensures
            u == match self@ {
                NoticeView::Sent { recipient, .. } => Some(recipient),
                NoticeView::Received { sender, .. } => Some(sender),
                NoticeView::Released { recipient, .. } => Some(recipient),
                _ => None,
            },
    {
        match self {
            Notice::Sent { recipient, .. } => Some(*recipient),
            Notice::Received { sender, .. } => Some(*sender),
            Notice::Released { recipient, .. } => Some(*recipient),
            _ => None,
        }
    }

    /// The text shown, with `name` the name of the user it refers to.
    pub fn text(&self, name: Option<&str>) -> (s: String)
        ensures
            s@ == notice_text_spec(
                self@,
                match name {
                    Some(n) => Some(n@),
                    None => None,
                },
            ),
    {
        match self {
            Notice::Sent { amount, .. } => sent_notice(*amount, name),
            Notice::Received { amount, .. } => received_notice(*amount, name),
            Notice::Held { amount, reason, .. } => hold_notice(*amount, reason.as_str()),
            Notice::Released { amount, .. } => released_notice(*amount, name),
            Notice::Denied { amount, reason, .. } => denied_notice(*amount, reason.as_str()),
            Notice::Frozen { .. } => freeze_notice(),
        }
    }
}

/// The events and notices an operation leaves.
#[derive(Debug)]
pub struct Effects {
    pub events: Vec<Event>,
    pub notices: Vec<Notice>,
}

/// The view of [`Effects`]: the events' views and the notices' views.
pub type EffectsView = (Seq<EventView>, Seq<NoticeView>);

impl View for Effects {
    type V = EffectsView;

    open spec fn view(&self) -> EffectsView {
        (
            Seq::new(self.events@.len(), |i: int| self.events@[i]@),
            Seq::new(self.notices@.len(), |i: int| self.notices@[i]@),
        )
    }
}

/// No events and no notices.
pub open spec fn no_effects() -> EffectsView {
    (Seq::empty(), Seq::empty())
}

/// `a` followed by `b`.
pub open spec fn then(a: EffectsView, b: EffectsView) -> EffectsView {
    (a.0 + b.0, a.1 + b.1)
}

/// Adding nothing leaves what was there.
pub proof fn lemma_then_none(a: EffectsView)
    ensures
        then(a, no_effects()) == a,
{
    assert(a.0 + Seq::<EventView>::empty() =~= a.0);
    assert(a.1 + Seq::<NoticeView>::empty() =~= a.1);
}

/// One event and no notice.
pub open spec fn one_event(e: EventView) -> EffectsView {
    (seq![e], Seq::empty())
}

/// An event view.
pub open spec fn event_view(actor: Option<i64>, name: Seq<char>, fields: Seq<(Seq<char>, DetailView)>) -> EventView {
    EventView { actor, name, fields }
}

/// A numeric detail's view.
pub open spec fn num(key: Seq<char>, n: i64) -> (Seq<char>, DetailView) {
    (key, DetailView::Num(n))
}

/// A text detail's view.
pub open spec fn txt(key: Seq<char>, s: Seq<char>) -> (Seq<char>, DetailView) {
    (key, DetailView::Text(s))
}

impl Effects {
    /// Nothing yet.
    pub fn new() -> (fx: Effects)
        ensures
            fx@ == no_effects(),
    {
        let fx = Effects { events: Vec::new(), notices: Vec::new() };
        assert(fx@.0 =~= Seq::<EventView>::empty());
        assert(fx@.1 =~= Seq::<NoticeView>::empty());
        fx
    }

    /// Adds an event.
    pub fn emit(&mut self, e: Event)
        ensures
            final(self)@ == then(old(self)@, one_event(e@)),
    {
        let ghost e0 = e@;
        self.events.push(e);
        assert(self@.0 =~= old(self)@.0 + seq![e0]);
        assert(self@.1 =~= old(self)@.1 + Seq::<NoticeView>::empty());
    }

    /// Adds a notice.
    pub fn tell(&mut self, n: Notice)
        ensures
            final(self)@ == then(old(self)@, (Seq::<EventView>::empty(), seq![n@])),
    {
        let ghost n0 = n@;
        self.notices.push(n);
        assert(self@.0 =~= old(self)@.0 + Seq::<EventView>::empty());
        assert(self@.1 =~= old(self)@.1 + seq![n0]);
    }
}

/// A yes-or-no detail's view.
pub open spec fn flag(key: Seq<char>, b: bool) -> (Seq<char>, DetailView) {
    (key, DetailView::Flag(b))
}

/// A yes-or-no detail.
pub fn flag_field(key: &str, b: bool) -> (f: Field)
    ensures
        f@ == flag(key@, b),
{
    Field { key: key.to_owned(), value: Detail::Flag(b) }
}

/// A numeric detail.
pub fn num_field(key: &str, n: i64) -> (f: Field)
    ensures
        f@ == num(key@, n),
{
    Field { key: key.to_owned(), value: Detail::Num(n) }
}

/// A text detail.
pub fn text_field(key: &str, s: String) -> (f: Field)
    ensures
        f@ == txt(key@, s@),
{
    Field { key: key.to_owned(), value: Detail::Text(s) }
}

/// An event with one detail.
pub fn event1(actor: Option<i64>, name: &str, a: Field) -> (e: Event)
    ensures
        e@ == event_view(actor, name@, seq![a@]),
{
    let ghost av = a@;
    let mut fs: Vec<Field> = Vec::new();
    fs.push(a);
    let e = Event { actor, name: name.to_owned(), fields: fs };
    assert(e@.fields =~= seq![av]);
    e
}

/// An event with two details.
pub fn event2(actor: Option<i64>, name: &str, a: Field, b: Field) -> (e: Event)
    ensures
        e@ == event_view(actor, name@, seq![a@, b@]),
{
    let ghost (av, bv) = (a@, b@);
    let mut fs: Vec<Field> = Vec::new();
    fs.push(a);
    fs.push(b);
    let e = Event { actor, name: name.to_owned(), fields: fs };
    assert(e@.fields =~= seq![av, bv]);
    e
}

/// An event with four details.
pub fn event4(actor: Option<i64>, name: &str, a: Field, b: Field, c: Field, d: Field) -> (e: Event)
    ensures
        e@ == event_view(actor, name@, seq![a@, b@, c@, d@]),
{
    let ghost (av, bv, cv, dv) = (a@, b@, c@, d@);
    let mut fs: Vec<Field> = Vec::new();
    fs.push(a);
    fs.push(b);
    fs.push(c);
    fs.push(d);
    let e = Event { actor, name: name.to_owned(), fields: fs };
    assert(e@.fields =~= seq![av, bv, cv, dv]);
    e
}

/// An event with five details.
pub fn event5(actor: Option<i64>, name: &str, a: Field, b: Field, c: Field, d: Field, x: Field) -> (e: Event)
    ensures
        e@ == event_view(actor, name@, seq![a@, b@, c@, d@, x@]),
{
    let ghost (av, bv, cv, dv, xv) = (a@, b@, c@, d@, x@);
    let mut fs: Vec<Field> = Vec::new();
    fs.push(a);
    fs.push(b);
    fs.push(c);
    fs.push(d);
    fs.push(x);
    let e = Event { actor, name: name.to_owned(), fields: fs };
    assert(e@.fields =~= seq![av, bv, cv, dv, xv]);
    e
}

} // verus!
