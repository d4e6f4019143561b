//! The bank's services over its books: creating a transfer runs the checks,
//! the per-account rate limit and the one-time code; confirming it compares
//! the typed code with the stored hash and runs the transfer engine.

use vstd::prelude::*;
use crate::actions::{actions_ok, ActionOtps};
use crate::errors::{AppError, ErrorKind};
use crate::ledger::{
    account_at, books_ok, confirm_spec, copy_text, law_completed_confirm_moves_exactly_the_amount,
    law_confirm_conserves_money, law_prepare_moves_no_money, law_unfinished_confirm_moves_no_money, new_transfer, answer_view,
    confirm_effects, opt_text, prepare_effects, prepare_spec, same_balances, total, typed_code_check, AccountRec, Answer, Books, Ledger,
};
use crate::models::{Role, TransferStatus};
use crate::money::money_ok;
use crate::otp::{argon2_verifies, code_check_spec, hash_code, is_code, lemma_code_len, new_code};
use crate::ratelimit::{rate_check_spec, recent, times_of, RateLimiter, MAX_TRANSFERS_PER_WINDOW};
use crate::text::{digits, i64_text, int_text, trimmed, u64_text};
use crate::transfer::CodeCheck;
use crate::telegram::{offer_code, OtpChannel, ScreenOtp};
use crate::effects::{
    event4, event_view, lemma_then_none, no_effects, num, num_field, one_event, text_field, then, txt, Effects,
    EffectsView,
};
use crate::money::{money_seq, money_text};

verus! {

/// What creating a transfer hands back: the pending transfer's id and its
/// code, to be delivered out of band or shown on screen.
pub struct TransferCreated {
    pub transfer_id: i64,
    pub otp: String,
    /// Whether the code went to the user's linked Telegram.
    pub otp_delivered: bool,
}

/// The bank's books, its transfer rate limiter and its parked actions.
pub struct Bank {
    pub ledger: Ledger,
    pub limiter: RateLimiter,
    pub actions: ActionOtps,
}

/// Who may send from account `from`: its owner, or any staff member.
pub open spec fn sender_check_spec(b: Books, actor: i64, role: Role, from: i64) -> Option<(ErrorKind, Seq<char>)> {
    match account_at(b, from as int) {
        None => Some((ErrorKind::NotFound, "account "@ + int_text(from as int) + " not found"@)),
        Some(a) => if a.owner != actor && role == Role::Customer {
            Some((ErrorKind::Forbidden, Seq::empty()))
        } else {
            None
        },
    }
}

/// The books and limiter after a transfer creation that did not get as far
/// as the code, and the error it answered.
pub open spec fn create_refusal(b: Books, s: Map<i64, Seq<i64>>, actor: i64, role: Role, from: i64, to: i64, amount: i64, note: Option<Seq<char>>, now: int) -> Option<(Books, Map<i64, Seq<i64>>, (ErrorKind, Seq<char>))> {
    match sender_check_spec(b, actor, role, from) {
        Some(e) => Some((b, s, e)),
        None => {
            let (b1, r1) = prepare_spec(b, from, to, amount, note, now);
            match r1 {
                Err(e) => Some((b1, s, e)),
                Ok(_) => {
                    let (s1, r2) = rate_check_spec(s, from, now);
                    match r2 {
                        Err(e) => Some((b1, s1, e)),
                        Ok(_) => None,
                    }
                },
            }
        },
    }
}

/// What the checks of a transfer creation announce: nothing when the
/// sender may not send from the account, else what the ledger's checks
/// announce.
pub open spec fn create_effects(b: Books, actor: i64, role: Role, from: i64, to: i64, amount: i64, note: Option<Seq<char>>, now: int) -> EffectsView {
    match sender_check_spec(b, actor, role, from) {
        Some(_) => no_effects(),
        None => prepare_effects(b, from, to, amount, note, now, actor),
    }
}

/// The event `transfer.created` for transfer `id`.
pub open spec fn created_effects(actor: i64, id: i64, from: i64, to: i64, amount: i64) -> EffectsView {
    one_event(
        event_view(
            Some(actor),
            "transfer.created"@,
            seq![
                num("transfer_id"@, id),
                num("from_account_id"@, from),
                num("to_account_id"@, to),
                txt("amount"@, money_seq(amount as int)),
            ],
        ),
    )
}

/// How one task of the race demonstration ended.
#[derive(Clone, Debug)]
pub enum RaceOutcome {
    /// The money moved.
    Completed,
    /// Parked for review, with the reason.
    Held(String),
    /// Refused, with the message.
    Refused(String),
}

/// How many tasks of a race ended with the money moved.
pub open spec fn completed_count(v: Seq<RaceOutcome>) -> nat
    decreases v.len(),
{
    if v.len() == 0 {
        0
    } else {
        completed_count(v.drop_last()) + if v.last() is Completed {
            1nat
        } else {
            0nat
        }
    }
}

/// The cents one task of a race moved: the amount if it completed.
pub open spec fn task_moved(r: Result<RaceOutcome, AppError>, amount: int) -> int {
    match r {
        Ok(RaceOutcome::Completed) => amount,
        _ => 0,
    }
}

/// `after` is `before` with `moved` cents taken from account `from` and
/// given to account `to`, and every other balance as it was.
pub open spec fn moved_between(after: Seq<AccountRec>, before: Seq<AccountRec>, from: int, to: int, moved: int) -> bool {
    &&& after.len() == before.len()
    &&& forall|i: int|
        0 <= i < after.len() ==> (#[trigger] after[i]).balance == before[i].balance - (if i == from - 1 {
            moved
        } else {
            0
        }) + (if i == to - 1 {
            moved
        } else {
            0
        })
}

/// What one task of the race answered, as a view.
pub enum RaceView {
    Completed,
    Held(Seq<char>),
    Refused(Seq<char>),
}

/// A task's answer: its outcome, or the error that stopped the race.
pub type RaceAnswer = Result<RaceView, (ErrorKind, Seq<char>)>;

/// The view of a task's answer.
pub open spec fn race_view(r: Result<RaceOutcome, AppError>) -> RaceAnswer {
    match r {
        Ok(RaceOutcome::Completed) => Ok(RaceView::Completed),
        Ok(RaceOutcome::Held(why)) => Ok(RaceView::Held(why@)),
        Ok(RaceOutcome::Refused(m)) => Ok(RaceView::Refused(m@)),
        Err(e) => Err(e@),
    }
}

/// A conflict or a bad request refuses the task, with its message; any
/// other error stops the race.
pub open spec fn sorted_error(e: (ErrorKind, Seq<char>)) -> RaceAnswer {
    if e.0 == ErrorKind::Conflict || e.0 == ErrorKind::BadRequest {
        Ok(RaceView::Refused(e.1))
    } else {
        Err(e)
    }
}

/// What a task answers when the confirmation answered `ans` and the
/// transfer then records the reason `why`: completed, held with that
/// reason, or the confirmation's error sorted.
pub open spec fn confirmed_answer(ans: Answer, why: Option<Seq<char>>) -> RaceAnswer {
    match ans {
        Ok(TransferStatus::Completed) => Ok(RaceView::Completed),
        Ok(_) => Ok(RaceView::Held(
            match why {
                Some(w) => w,
                None => "held for review"@,
            },
        )),
        Err(e) => sorted_error(e),
    }
}

/// The note on the transfer of task `k` (counted from 0) of a race.
pub open spec fn race_note(k: int) -> Seq<char> {
    "race demo #"@ + digits((k + 1) as nat)
}

/// The books after a task created its transfer, with note `note` and code
/// hash `h`, on the books `bp` that the checks left.
pub open spec fn race_created(bp: Books, from: i64, to: i64, amount: i64, note: Seq<char>, h: Seq<char>, now: i64) -> Books {
    Books {
        transfers: bp.transfers.push(
            new_transfer(bp.transfers.len() + 1, from, to, amount, TransferStatus::Pending, Some(note), None, Some(h), now),
        ),
        ..bp
    }
}

/// The confirmation of that transfer by `owner` with the code issued for
/// it, which matches its hash.
pub open spec fn race_confirmed(bp: Books, from: i64, to: i64, amount: i64, note: Seq<char>, h: Seq<char>, owner: i64, now: i64) -> (Books, Answer) {
    confirm_spec(race_created(bp, from, to, amount, note, h, now), owner as int, bp.transfers.len() + 1int, now as int, CodeCheck::Match)
}

/// What that confirmation announces.
pub open spec fn race_confirm_effects(bp: Books, from: i64, to: i64, amount: i64, note: Seq<char>, h: Seq<char>, owner: i64, now: i64) -> EffectsView {
    confirm_effects(race_created(bp, from, to, amount, note, h, now), owner as int, bp.transfers.len() + 1int, now as int, CodeCheck::Match)
}

/// One task of the race, with note `note`, taking the books from `b0` to
/// `b1`, the rate limiter from `s0` to `s1` and the announcements from
/// `x0` to `x1`, and answering `rv`: a refused creation answers its sorted
/// error; a created transfer is confirmed with its own code and answers
/// what the confirmation gives.
pub open spec fn race_step(
    b0: Books,
    s0: Map<i64, Seq<i64>>,
    x0: EffectsView,
    b1: Books,
    s1: Map<i64, Seq<i64>>,
    x1: EffectsView,
    owner: i64,
    from: i64,
    to: i64,
    amount: i64,
    note: Seq<char>,
    now: i64,
    rv: RaceAnswer,
) -> bool {
    let xc = then(x0, create_effects(b0, owner, Role::Customer, from, to, amount, Some(note), now as int));
    match create_refusal(b0, s0, owner, Role::Customer, from, to, amount, Some(note), now as int) {
        Some((bx, sx, e)) => b1 == bx && s1 == sx && x1 == xc && rv == sorted_error(e),
        None => {
            let bp = prepare_spec(b0, from, to, amount, Some(note), now as int).0;
            let id = (bp.transfers.len() + 1) as i64;
            &&& s1 == rate_check_spec(s0, from, now as int).0
            &&& (exists|h: Seq<char>|
                #![trigger race_confirmed(bp, from, to, amount, note, h, owner, now)]
                {
                    &&& b1 == race_confirmed(bp, from, to, amount, note, h, owner, now).0
                    &&& x1 == then(
                        then(xc, created_effects(owner, id, from, to, amount)),
                        race_confirm_effects(bp, from, to, amount, note, h, owner, now),
                    )
                    &&& rv == confirmed_answer(
                        race_confirmed(bp, from, to, amount, note, h, owner, now).1,
                        race_confirmed(bp, from, to, amount, note, h, owner, now).0.transfers[bp.transfers.len() as int].reason,
                    )
                })
        },
    }
}

/// A run of the race: `rs[k]` is what task `k` answered, taking the books
/// from `bs[k]` to `bs[k + 1]`, the limiter from `ss[k]` to `ss[k + 1]` and
/// the announcements from `xs[k]` to `xs[k + 1]`.
pub open spec fn race_run(
    bs: Seq<Books>,
    ss: Seq<Map<i64, Seq<i64>>>,
    xs: Seq<EffectsView>,
    rs: Seq<RaceAnswer>,
    owner: i64,
    from: i64,
    to: i64,
    amount: i64,
    now: i64,
) -> bool {
    &&& bs.len() == rs.len() + 1
    &&& ss.len() == rs.len() + 1
    &&& xs.len() == rs.len() + 1
    &&& forall|k: int|
        0 <= k < rs.len() ==> race_step(
            bs[k],
            ss[k],
            xs[k],
            bs[k + 1],
            ss[k + 1],
            xs[k + 1],
            owner,
            from,
            to,
            amount,
            race_note(k),
            now,
            #[trigger] rs[k],
        )
}

impl Bank {
    /// Empty books, limiter and actions.
    pub fn new() -> (bank: Bank)
        ensures
            books_ok(bank.ledger@),
            bank.ledger@.accounts.len() == 0,
            bank.ledger@.transfers.len() == 0,
            bank.limiter@ == Map::<i64, Seq<i64>>::empty(),
            actions_ok(bank.actions@),
            bank.actions@.len() == 0,
    {
        Bank { ledger: Ledger::new(), limiter: RateLimiter::new(), actions: ActionOtps::new() }
    }

    /// Creates a transfer of `amount` cents from account `from` to account
    /// `to` for `actor` at time `now`: the sender check, the checks before
    /// creation, the rate limit, then a fresh code whose hash is stored on a
    /// new pending transfer. No money moves.
    /// The code is handed to `channel`, which says whether it reached the
    /// user; what the creation announces is added to `fx`.
    pub fn create_transfer<C: OtpChannel>(
        &mut self,
        actor: i64,
        role: Role,
        from: i64,
        to: i64,
        amount: i64,
        note: Option<String>,
        now: i64,
        channel: &C,
        fx: &mut Effects,
    ) -> (r: Result<TransferCreated, AppError>)
        requires
            books_ok(old(self).ledger@),
            money_ok(amount as int),
            now >= 0,
            old(self).ledger@.transfers.len() + 2 < i64::MAX,
        ensures
            books_ok(final(self).ledger@),
            final(self).actions@ == old(self).actions@,
            total(final(self).ledger@.accounts) == total(old(self).ledger@.accounts),
            final(self).ledger@.transfers.len() <= old(self).ledger@.transfers.len() + 1,
            same_balances(final(self).ledger@.accounts, old(self).ledger@.accounts),
            ({
                let refusal = create_refusal(old(self).ledger@, old(self).limiter@, actor, role, from, to, amount, opt_text(note), now as int);
                match refusal {
                    Some((b1, s1, e)) => {
                        &&& r matches Err(x) && x@ == e
                        &&& final(self).ledger@ == b1
                        &&& final(self).limiter@ == s1
                    },
                    None => {
                        let b1 = prepare_spec(old(self).ledger@, from, to, amount, opt_text(note), now as int).0;
                        let s1 = rate_check_spec(old(self).limiter@, from, now as int).0;
                        &&& final(self).limiter@ == s1
                        &&& r is Ok
                        &&& (r matches Ok(c) ==> {
                            let t = final(self).ledger@.transfers.last();
                            &&& final(self).ledger@ == (Books {
                                transfers: b1.transfers.push(
                                    new_transfer(b1.transfers.len() + 1, from, to, amount, TransferStatus::Pending, opt_text(note), None, t.otp_hash, now),
                                ),
                                ..b1
                            })
                            &&& c.transfer_id == final(self).ledger@.transfers.len()
                            &&& is_code(c.otp@)
                            &&& t.otp_hash matches Some(h) && argon2_verifies(c.otp@, h) == Some(true)
                        })
                    },
                }
            }),
            r matches Ok(c) ==> exists|s: &str|
                s@ == c.otp@ && #[trigger] C::send_otp.ensures((channel, actor, s), c.otp_delivered),
            final(fx)@ == then(
                old(fx)@,
                then(
                    create_effects(old(self).ledger@, actor, role, from, to, amount, opt_text(note), now as int),
                    match r {
                        Ok(c) => created_effects(actor, c.transfer_id, from, to, amount),
                        Err(_) => no_effects(),
                    },
                ),
            ),
    {
        let ghost b = self.ledger@;
        let ghost f0 = fx@;
        let ghost nv = opt_text(note);
        proof {
            law_prepare_moves_no_money(b, from, to, amount, opt_text(note), now as int);
            lemma_then_none(f0);
            lemma_then_none(create_effects(b, actor, role, from, to, amount, nv, now as int));
        }
        match self.ledger.account(from) {
            None => {
                let mut m = "account ".to_owned();
                m.append(i64_text(from).as_str());
                m.append(" not found");
                return Err(AppError::NotFound(m));
            },
            Some(a) => {
                if a.owner != actor && role == Role::Customer {
                    return Err(AppError::Forbidden);
                }
            },
        }
        let note_copy = copy_text(&note);
        match self.ledger.prepare_transfer(from, to, amount, note, now, actor, fx) {
            Err(e) => return Err(e),
            Ok(()) => {},
        }
        let ghost f1 = fx@;
        proof {
            lemma_then_none(create_effects(b, actor, role, from, to, amount, nv, now as int));
        }
        match self.limiter.check(from, now) {
            Err(e) => return Err(e),
            Ok(()) => {},
        }
        let code = new_code();
        proof {
            lemma_code_len(code@);
        }
        let hash = match hash_code(code.as_str()) {
            Ok(h) => h,
            Err(e) => return Err(e),
        };
        let ghost h = hash@;
        let id = self.ledger.insert_pending(from, to, amount, note_copy, hash, now);
        fx.emit(
            event4(
                Some(actor),
                "transfer.created",
                num_field("transfer_id", id),
                num_field("from_account_id", from),
                num_field("to_account_id", to),
                text_field("amount", money_text(amount)),
            ),
        );
        proof {
            assert(fx@.0 =~= f0.0 + (create_effects(b, actor, role, from, to, amount, nv, now as int).0 + created_effects(actor, id, from, to, amount).0));
            assert(fx@.1 =~= f0.1 + (create_effects(b, actor, role, from, to, amount, nv, now as int).1 + created_effects(actor, id, from, to, amount).1));
        }
        let delivered = offer_code(channel, actor, &code);
        let ghost shown = choose|s: &str| s@ == code@ && #[trigger] C::send_otp.ensures((channel, actor, s), delivered);
        let c = TransferCreated { transfer_id: id, otp: code, otp_delivered: delivered };
        assert(shown@ == c.otp@ && C::send_otp.ensures((channel, actor, shown), c.otp_delivered));
        Ok(c)
    }
}

impl Bank {
    /// One task of the race demonstration: create, with note `note`, then
    /// confirm with the issued code; what both announce is added to `fx`.
    fn race_task(&mut self, owner: i64, from: i64, to: i64, amount: i64, note: String, now: i64, fx: &mut Effects) -> (r: Result<RaceOutcome, AppError>)
        requires
            books_ok(old(self).ledger@),
            money_ok(amount as int),
            now >= 0,
            old(self).ledger@.transfers.len() + 2 < i64::MAX,
        ensures
            books_ok(final(self).ledger@),
            total(final(self).ledger@.accounts) == total(old(self).ledger@.accounts),
            final(self).ledger@.transfers.len() <= old(self).ledger@.transfers.len() + 1,
            moved_between(
                final(self).ledger@.accounts,
                old(self).ledger@.accounts,
                from as int,
                to as int,
                task_moved(r, amount as int),
            ),
            final(self).actions@ == old(self).actions@,
            race_step(
                old(self).ledger@,
                old(self).limiter@,
                old(fx)@,
                final(self).ledger@,
                final(self).limiter@,
                final(fx)@,
                owner,
                from,
                to,
                amount,
                note@,
                now,
                race_view(r),
            ),
    {
        let ghost b0 = self.ledger@;
        let ghost nv = note@;
        let ghost x0 = fx@;
        let ghost xc = then(x0, create_effects(b0, owner, Role::Customer, from, to, amount, Some(nv), now as int));
        proof {
            lemma_then_none(xc);
        }
        match self.create_transfer(owner, Role::Customer, from, to, amount, Some(note), now, &ScreenOtp, fx) {
            Err(AppError::Conflict(m)) => Ok(RaceOutcome::Refused(m)),
            Err(AppError::BadRequest(m)) => Ok(RaceOutcome::Refused(m)),
            Err(e) => Err(e),
            Ok(c) => {
                let ghost b = self.ledger@;
                let ghost bp = prepare_spec(b0, from, to, amount, Some(nv), now as int).0;
                let ghost h = b.transfers.last().otp_hash->0;
                let ghost x1 = fx@;
                proof {
                    assert(b == race_created(bp, from, to, amount, nv, h, now));
                    law_issued_code_confirms(b, c.transfer_id as int, c.otp@);
                    law_confirm_conserves_money(b, owner as int, c.transfer_id as int, now as int, typed_code_check(b, c.transfer_id as int, c.otp@));
                    assert(x1 == then(xc, created_effects(owner, c.transfer_id, from, to, amount)));
                }
                let ghost code = typed_code_check(b, c.transfer_id as int, c.otp@);
                let r = self.ledger.confirm_typed(owner, c.transfer_id, now, c.otp.as_str(), fx);
                proof {
                    if r matches Ok(TransferStatus::Completed) {
                        law_completed_confirm_moves_exactly_the_amount(b, owner as int, c.transfer_id as int, now as int, code);
                    } else {
                        law_unfinished_confirm_moves_no_money(b, owner as int, c.transfer_id as int, now as int, code);
                    }
                    assert(self.ledger@ == race_confirmed(bp, from, to, amount, nv, h, owner, now).0);
                    assert(answer_view(r) == race_confirmed(bp, from, to, amount, nv, h, owner, now).1);
                    assert(fx@ == then(x1, race_confirm_effects(bp, from, to, amount, nv, h, owner, now)));
                }
                match r {
                    Ok(TransferStatus::Completed) => Ok(RaceOutcome::Completed),
                    Ok(_) => {
                        let reason = match self.ledger.transfer_status(c.transfer_id) {
                            Some((_, Some(why))) => why,
                            _ => "held for review".to_owned(),
                        };
                        Ok(RaceOutcome::Held(reason))
                    },
                    Err(AppError::Conflict(m)) => Ok(RaceOutcome::Refused(m)),
                    Err(AppError::BadRequest(m)) => Ok(RaceOutcome::Refused(m)),
                    Err(e) => Err(e),
                }
            },
        }
    }

    /// The race demonstration: `tasks` transfers of `amount` from `from` to
    /// `to`, noted "race demo #1", "race demo #2", ..., each created and
    /// confirmed in turn by the source account's owner at `now`, under a
    /// rate limiter of the run's own (the bank's is left as it was). Every
    /// task either completes, is held, or is refused; any other error stops
    /// the race and is answered. The bank's money is conserved throughout;
    /// what the tasks announce is added to `fx`.
    pub fn race_demo(&mut self, owner: i64, from: i64, to: i64, amount: i64, tasks: u32, now: i64, fx: &mut Effects) -> (r: Result<Vec<RaceOutcome>, AppError>)
        requires
            books_ok(old(self).ledger@),
            money_ok(amount as int),
            now >= 0,
            tasks <= 10,
            old(self).ledger@.transfers.len() + tasks + 2 < i64::MAX,
        ensures
            books_ok(final(self).ledger@),
            total(final(self).ledger@.accounts) == total(old(self).ledger@.accounts),
            r matches Ok(v) ==> v@.len() == tasks && moved_between(
                final(self).ledger@.accounts,
                old(self).ledger@.accounts,
                from as int,
                to as int,
                amount * completed_count(v@),
            ),
            final(self).actions@ == old(self).actions@,
            final(self).limiter@ == old(self).limiter@,
            exists|bs: Seq<Books>, ss: Seq<Map<i64, Seq<i64>>>, xs: Seq<EffectsView>, rs: Seq<RaceAnswer>|
                #![trigger race_run(bs, ss, xs, rs, owner, from, to, amount, now)]
                {
                    &&& race_run(bs, ss, xs, rs, owner, from, to, amount, now)
                    &&& bs[0] == old(self).ledger@
                    &&& ss[0] == Map::<i64, Seq<i64>>::empty()
                    &&& xs[0] == old(fx)@
                    &&& bs.last() == final(self).ledger@
                    &&& xs.last() == final(fx)@
                    &&& forall|k: int| 0 <= k < rs.len() - 1 ==> #[trigger] rs[k] is Ok
                    &&& match r {
                        Ok(v) => rs.len() == tasks && forall|k: int|
                            0 <= k < tasks ==> #[trigger] rs[k] == race_view(Ok(v@[k])),
                        Err(e) => 1 <= rs.len() <= tasks && rs.last() == Err::<RaceView, (ErrorKind, Seq<char>)>(e@),
                    }
                },
    {
        let ghost t0 = total(self.ledger@.accounts);
        let ghost n0 = self.ledger@.transfers.len();
        let mut saved = RateLimiter::new();
        std::mem::swap(&mut saved, &mut self.limiter);
        let mut out: Vec<RaceOutcome> = Vec::new();
        let mut i: u32 = 0;
        let ghost mut bs: Seq<Books> = seq![self.ledger@];
        let ghost mut ss: Seq<Map<i64, Seq<i64>>> = seq![self.limiter@];
        let ghost mut xs: Seq<EffectsView> = seq![fx@];
        let ghost mut rs: Seq<RaceAnswer> = Seq::empty();
        proof {
            assert(self.limiter@ =~= Map::<i64, Seq<i64>>::empty());
        }
        while i < tasks
            invariant
                books_ok(self.ledger@),
                t0 == total(old(self).ledger@.accounts),
                total(self.ledger@.accounts) == t0,
                self.ledger@.transfers.len() <= n0 + i,
                n0 + tasks + 2 < i64::MAX,
                money_ok(amount as int),
                now >= 0,
                i <= tasks,
                tasks <= 10,
                out@.len() == i,
                moved_between(
                    self.ledger@.accounts,
                    old(self).ledger@.accounts,
                    from as int,
                    to as int,
                    amount * completed_count(out@),
                ),
                self.actions@ == old(self).actions@,
                saved@ == old(self).limiter@,
                race_run(bs, ss, xs, rs, owner, from, to, amount, now),
                bs[0] == old(self).ledger@,
                ss[0] == Map::<i64, Seq<i64>>::empty(),
                xs[0] == old(fx)@,
                bs.last() == self.ledger@,
                ss.last() == self.limiter@,
                xs.last() == fx@,
                rs.len() == i,
                forall|k: int| 0 <= k < i ==> #[trigger] rs[k] == race_view(Ok(out@[k])),
            decreases tasks - i,
        {
            let ghost prev = out@;
            let ghost b0 = self.ledger@;
            let ghost s0 = self.limiter@;
            let ghost x0 = fx@;
            let mut note = "race demo #".to_owned();
            note.append(u64_text((i + 1) as u64).as_str());
            proof {
                assert(note@ == race_note(i as int));
            }
            let res = self.race_task(owner, from, to, amount, note, now, fx);
            proof {
                let bs2 = bs.push(self.ledger@);
                let ss2 = ss.push(self.limiter@);
                let xs2 = xs.push(fx@);
                let rs2 = rs.push(race_view(res));
                assert forall|k: int| 0 <= k < rs2.len() implies race_step(
                    bs2[k],
                    ss2[k],
                    xs2[k],
                    bs2[k + 1],
                    ss2[k + 1],
                    xs2[k + 1],
                    owner,
                    from,
                    to,
                    amount,
                    race_note(k),
                    now,
                    #[trigger] rs2[k],
                ) by {
                    if k < rs.len() {
                        assert(rs2[k] == rs[k]);
                        assert(bs2[k] == bs[k] && bs2[k + 1] == bs[k + 1]);
                        assert(ss2[k] == ss[k] && ss2[k + 1] == ss[k + 1]);
                        assert(xs2[k] == xs[k] && xs2[k + 1] == xs[k + 1]);
                    } else {
                        assert(bs2[k] == b0 && ss2[k] == s0 && xs2[k] == x0);
                    }
                }
                bs = bs2;
                ss = ss2;
                xs = xs2;
                rs = rs2;
            }
            let o = match res {
                Err(e) => {
                    std::mem::swap(&mut saved, &mut self.limiter);
                    proof {
                        assert forall|k: int| 0 <= k < rs.len() - 1 implies #[trigger] rs[k] is Ok by {
                            assert(rs[k] == race_view(Ok(out@[k])));
                        }
                        assert(race_run(bs, ss, xs, rs, owner, from, to, amount, now));
                    }
                    return Err(e);
                },
                Ok(o) => o,
            };
            out.push(o);
            proof {
                let d: int = if o is Completed { 1 } else { 0 };
                let c: int = completed_count(prev) as int;
                assert(out@.drop_last() =~= prev);
                assert(completed_count(out@) == c + d);
                assert(amount * (c + d) == amount * c + amount * d) by (nonlinear_arith);
                assert forall|k: int| 0 <= k < i + 1 implies #[trigger] rs[k] == race_view(Ok(out@[k])) by {
                    if k < i {
                        assert(out@[k] == prev[k]);
                    }
                }
            }
            i = i + 1;
        }
        std::mem::swap(&mut saved, &mut self.limiter);
        proof {
            assert forall|k: int| 0 <= k < rs.len() - 1 implies #[trigger] rs[k] is Ok by {
                assert(rs[k] == race_view(Ok(out@[k])));
            }
            assert(race_run(bs, ss, xs, rs, owner, from, to, amount, now));
        }
        Ok(out)
    }
}

/// The sixth transfer an account starts within a minute is refused: when
/// five attempts from the account already fall within the last sixty
/// seconds and every other check passes, the creation answers the rate
/// limit's conflict, records no transfer and issues no code.
pub proof fn law_sixth_transfer_in_a_minute_is_refused(
    b: Books,
    s: Map<i64, Seq<i64>>,
    actor: i64,
    role: Role,
    from: i64,
    to: i64,
    amount: i64,
    note: Option<Seq<char>>,
    now: int,
)
    requires
        books_ok(b),
        b.transfers.len() + 1 < i64::MAX,
        money_ok(amount as int),
        0 <= now <= i64::MAX,
        sender_check_spec(b, actor, role, from) is None,
        prepare_spec(b, from, to, amount, note, now).1 is Ok,
        recent(times_of(s, from), now).len() >= MAX_TRANSFERS_PER_WINDOW,
    ensures
        create_refusal(b, s, actor, role, from, to, amount, note, now) == Some(
            (
                prepare_spec(b, from, to, amount, note, now).0,
                s.insert(from, recent(times_of(s, from), now)),
                (ErrorKind::Conflict, "rate limit: more than 5 transfers in 60s"@),
            ),
        ),
        prepare_spec(b, from, to, amount, note, now).0.transfers == b.transfers,
{
    law_prepare_moves_no_money(b, from, to, amount, note, now);
}

/// The code handed out when a transfer is created is the code that
/// confirms it: typed back unchanged, it matches the stored hash.
pub proof fn law_issued_code_confirms(b: Books, id: int, code: Seq<char>)
    requires
        1 <= id <= b.transfers.len(),
        b.transfers[id - 1].otp_hash matches Some(h) && argon2_verifies(code, h) == Some(true),
    ensures
        typed_code_check(b, id, code) == CodeCheck::Match,
{
}

} // verus!
