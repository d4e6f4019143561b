//! The one-time-code guard on sensitive actions: account opening, loan
//! applications, limit changes, profile changes, unlinking and risky
//! logins.
//!
//! `begin` parks the action's inputs with the hash of a fresh code;
//! `verify` hands the inputs back once, to the user who began the action,
//! for the purpose it was begun for, within ten minutes, when the code is
//! right. The third wrong code cancels the action.

use vstd::prelude::*;
use crate::errors::{AppError, ErrorKind};
use crate::otp::{
    argon2_verifies, code_check, code_check_spec, hash_code, is_code, new_code, MAX_OTP_ATTEMPTS,
    OTP_TTL_MICROS,
};
use crate::text::{digits, int_text, push_digits, same_text, trim, trimmed};
use crate::transfer::CodeCheck;

use crate::telegram::{offer_code, OtpChannel};

verus! {

/// What `begin` hands the caller: the action's id and its code, to be
/// delivered out of band or shown on screen.
pub struct ActionChallenge {
    pub action_id: i64,
    /// The plain code; shown on screen only when it was not delivered.
    pub otp: String,
    /// Whether the code went to the user's linked Telegram.
    pub delivered: bool,
}

/// A parked action.
pub struct ActionOtp {
    pub id: i64,
    pub user_id: i64,
    pub purpose: String,
    /// The action's inputs, serialised.
    pub payload: String,
    pub otp_hash: String,
    /// When the action was begun, in microseconds.
    pub created_at: i64,
    /// Wrong codes typed so far.
    pub attempts: i32,
    /// Set once the action was performed or cancelled.
    pub consumed: bool,
}

/// The view of an [`ActionOtp`].
pub struct ActionOtpView {
    pub id: i64,
    pub user_id: i64,
    pub purpose: Seq<char>,
    pub payload: Seq<char>,
    pub otp_hash: Seq<char>,
    pub created_at: i64,
    pub attempts: i32,
    pub consumed: bool,
}

impl View for ActionOtp {
    type V = ActionOtpView;

    open spec fn view(&self) -> ActionOtpView {
        ActionOtpView {
            id: self.id,
            user_id: self.user_id,
            purpose: self.purpose@,
            payload: self.payload@,
            otp_hash: self.otp_hash@,
            created_at: self.created_at,
            attempts: self.attempts,
            consumed: self.consumed,
        }
    }
}

/// The parked actions.
pub struct ActionOtps {
    rows: Vec<ActionOtp>,
}

impl View for ActionOtps {
    type V = Seq<ActionOtpView>;

    closed spec fn view(&self) -> Seq<ActionOtpView> {
        Seq::new(self.rows@.len(), |i: int| self.rows@[i]@)
    }
}

/// Sound rows: ids follow the row order and no row has used up its tries
/// without being cancelled.
pub open spec fn actions_ok(rows: Seq<ActionOtpView>) -> bool {
    &&& rows.len() < i64::MAX
    &&& forall|i: int|
        0 <= i < rows.len() ==> {
            let r = #[trigger] rows[i];
            &&& r.id == i + 1
            &&& 0 <= r.attempts < MAX_OTP_ATTEMPTS
        }
}

/// The live action `id` of `user` for `purpose`: not performed, not
/// cancelled.
pub open spec fn live_action(rows: Seq<ActionOtpView>, user: i64, id: int, purpose: Seq<char>) -> bool {
    1 <= id <= rows.len() && rows[id - 1].user_id == user && rows[id - 1].purpose == purpose
        && !rows[id - 1].consumed
}

/// The error for a wrong code with tries left.
pub open spec fn wrong_code_msg(attempts: int) -> Seq<char> {
    "invalid confirmation code (attempt "@ + int_text(attempts) + " of 3)"@
}

/// Verifying a typed code for action `id`.
pub open spec fn verify_spec(rows: Seq<ActionOtpView>, user: i64, id: int, purpose: Seq<char>, typed: Seq<char>, now: int) -> (Seq<ActionOtpView>, Result<Seq<char>, (ErrorKind, Seq<char>)>) {
    if !live_action(rows, user, id, purpose) {
        (rows, Err((ErrorKind::Conflict, "this confirmation is no longer valid"@)))
    } else {
        let r = rows[id - 1];
        if now - r.created_at > OTP_TTL_MICROS {
            (rows, Err((ErrorKind::Conflict, "the code has expired — please start the action again"@)))
        } else {
            match code_check_spec(Some(r.otp_hash), trimmed(typed)) {
                CodeCheck::Match => (rows.update(id - 1, ActionOtpView { consumed: true, ..r }), Ok(r.payload)),
                CodeCheck::Mismatch => if r.attempts + 1 >= MAX_OTP_ATTEMPTS {
                    (
                        rows.update(id - 1, ActionOtpView { consumed: true, ..r }),
                        Err((ErrorKind::Conflict, "too many invalid codes - the action has been cancelled"@)),
                    )
                } else {
                    (
                        rows.update(id - 1, ActionOtpView { attempts: (r.attempts + 1) as i32, ..r }),
                        Err((ErrorKind::BadRequest, wrong_code_msg(r.attempts + 1))),
                    )
                },
                _ => (rows, Err((ErrorKind::Internal, "malformed OTP hash"@))),
            }
        }
    }
}

/// The view of a payload result.
pub open spec fn payload_answer(r: Result<String, AppError>) -> Result<Seq<char>, (ErrorKind, Seq<char>)> {
    match r {
        Ok(p) => Ok(p@),
        Err(e) => Err(e@),
    }
}

impl ActionOtps {
    /// No parked actions.
    pub fn new() -> (s: ActionOtps)
        ensures
            s@.len() == 0,
            actions_ok(s@),
    {
        ActionOtps { rows: Vec::new() }
    }

    /// The number of actions ever begun.
    pub fn len(&self) -> (n: usize)
        ensures
            n == self@.len(),
    {
        self.rows.len()
    }

    /// Who began live action `id` for `purpose`, and what it parked: the
    /// action must be neither performed nor cancelled.
    pub fn live_owner(&self, id: i64, purpose: &str) -> (r: Option<(i64, String)>)
        ensures
            match r {
                Some((u, p)) => 1 <= id <= self@.len() && live_action(self@, u, id as int, purpose@)
                    && p@ == self@[id - 1].payload,
                None => !(1 <= id <= self@.len()) || self@[id - 1].consumed || self@[id - 1].purpose != purpose@,
            },
    {
        let n = self.rows.len();
        if 1 <= id && (id as u64) <= (n as u64) {
            let row = &self.rows[(id - 1) as usize];
            assert(self@[id - 1] == row@);
            if !row.consumed && same_text(row.purpose.as_str(), purpose) {
                return Some((row.user_id, row.payload.clone()));
            }
        }
        None
    }

    /// Parks an action of `user` for `purpose` with its inputs and a fresh
    /// code, which is handed to `channel`; returns the action's id, the code
    /// and whether the channel delivered it.
    pub fn begin<C: OtpChannel>(&mut self, user: i64, purpose: &str, payload: String, now: i64, channel: &C) -> (r: Result<ActionChallenge, AppError>)
        requires
            actions_ok(old(self)@),
            old(self)@.len() + 1 < i64::MAX,
        ensures
            actions_ok(final(self)@),
            r matches Ok(c) ==> {
                &&& final(self)@.len() == old(self)@.len() + 1
                &&& final(self)@.drop_last() == old(self)@
                &&& c.action_id == final(self)@.len()
                &&& is_code(c.otp@)
                &&& ({
                    let row = final(self)@.last();
                    &&& row.id == c.action_id
                    &&& row.user_id == user
                    &&& row.purpose == purpose@
                    &&& row.payload == payload@
                    &&& row.created_at == now
                    &&& row.attempts == 0
                    &&& !row.consumed
                    &&& argon2_verifies(c.otp@, row.otp_hash) == Some(true)
                })
            },
            r is Ok,
            r matches Ok(c) ==> exists|s: &str| s@ == c.otp@ && #[trigger] C::send_otp.ensures((channel, user, s), c.delivered),
    {
        let code = new_code();
        proof {
            crate::otp::lemma_code_len(code@);
        }
        let hash = match hash_code(code.as_str()) {
            Ok(h) => h,
            Err(e) => return Err(e),
        };
        let id = self.rows.len() as i64 + 1;
        let ghost before = self@;
        self.rows.push(
            ActionOtp {
                id,
                user_id: user,
                purpose: purpose.to_owned(),
                payload,
                otp_hash: hash,
                created_at: now,
                attempts: 0,
                consumed: false,
            },
        );
        proof {
            assert(self@.drop_last() =~= before);
            assert forall|i: int| 0 <= i < self@.len() implies {
                let r = #[trigger] self@[i];
                &&& r.id == i + 1
                &&& 0 <= r.attempts < MAX_OTP_ATTEMPTS
            } by {
                if i < before.len() {
                    assert(self@[i] == before[i]);
                }
            }
        }
        let delivered = offer_code(channel, user, &code);
        let ghost shown = choose|s: &str| s@ == code@ && #[trigger] C::send_otp.ensures((channel, user, s), delivered);
        let c = ActionChallenge { action_id: id, otp: code, delivered };
        assert(shown@ == c.otp@ && C::send_otp.ensures((channel, user, shown), c.delivered));
        Ok(c)
    }

    /// Verifies `typed` for action `id` of `user` for `purpose` at `now`
    /// and, when it is right, hands back the action's inputs.
    pub fn verify(&mut self, user: i64, id: i64, purpose: &str, typed: &str, now: i64) -> (r: Result<String, AppError>)
        requires
            actions_ok(old(self)@),
        ensures
            actions_ok(final(self)@),
            final(self)@ == verify_spec(old(self)@, user, id as int, purpose@, typed@, now as int).0,
            payload_answer(r) == verify_spec(old(self)@, user, id as int, purpose@, typed@, now as int).1,
    {
        let n = self.rows.len();
        let live = 1 <= id && (id as u64) <= (n as u64) && {
            let row = &self.rows[(id - 1) as usize];
            row.user_id == user && same_text(row.purpose.as_str(), purpose) && !row.consumed
        };
        if !live {
            return Err(AppError::Conflict("this confirmation is no longer valid".to_owned()));
        }
        let k = (id - 1) as usize;
        assert(self@[k as int] == self.rows@[k as int]@);
        let created_at = self.rows[k].created_at;
        if (now as i128) - (created_at as i128) > OTP_TTL_MICROS as i128 {
            return Err(AppError::Conflict("the code has expired — please start the action again".to_owned()));
        }
        let check = code_check(Some(self.rows[k].otp_hash.as_str()), trim(typed));
        let ghost before = self@;
        match check {
            CodeCheck::Match => {
                let payload = self.rows[k].payload.clone();
                self.set_state(k, self.rows[k].attempts, true);
                proof {
                    assert(self@ =~= before.update(k as int, ActionOtpView { consumed: true, ..before[k as int] }));
                }
                Ok(payload)
            },
            CodeCheck::Mismatch => {
                let attempts = self.rows[k].attempts;
                if attempts + 1 >= MAX_OTP_ATTEMPTS {
                    self.set_state(k, attempts, true);
                    proof {
                        assert(self@ =~= before.update(k as int, ActionOtpView { consumed: true, ..before[k as int] }));
                    }
                    Err(AppError::Conflict("too many invalid codes - the action has been cancelled".to_owned()))
                } else {
                    self.set_state(k, attempts + 1, false);
                    proof {
                        assert(self@ =~= before.update(k as int, ActionOtpView { attempts: (attempts + 1) as i32, ..before[k as int] }));
                    }
                    let mut m = "invalid confirmation code (attempt ".to_owned();
                    push_digits(&mut m, (attempts + 1) as u64);
                    m.append(" of 3)");
                    proof {
                        assert(int_text((attempts + 1) as int) == digits((attempts + 1) as nat));
                    }
                    Err(AppError::BadRequest(m))
                }
            },
            _ => Err(AppError::Internal("malformed OTP hash".to_owned())),
        }
    }

    /// Sets row `k`'s attempt count and consumed flag.
    fn set_state(&mut self, k: usize, attempts: i32, consumed: bool)
        requires
            actions_ok(old(self)@),
            k < old(self)@.len(),
            0 <= attempts < MAX_OTP_ATTEMPTS,
        ensures
            actions_ok(final(self)@),
            final(self)@ == old(self)@.update(k as int, ActionOtpView { attempts, consumed, ..old(self)@[k as int] }),
    {
        let ghost before = self@;
        let old_row = &self.rows[k];
        let row = ActionOtp {
            id: old_row.id,
            user_id: old_row.user_id,
            purpose: old_row.purpose.clone(),
            payload: old_row.payload.clone(),
            otp_hash: old_row.otp_hash.clone(),
            created_at: old_row.created_at,
            attempts,
            consumed,
        };
        self.rows.set(k, row);
        proof {
            assert(self@ =~= before.update(k as int, ActionOtpView { attempts, consumed, ..before[k as int] }));
        }
    }
}

/// An action is performed at most once: after a right code, the action
/// can no longer be confirmed, whatever is typed.
pub proof fn law_action_code_is_single_use(rows: Seq<ActionOtpView>, user: i64, id: int, purpose: Seq<char>, typed: Seq<char>, now: int, typed2: Seq<char>, now2: int)
    requires
        actions_ok(rows),
        verify_spec(rows, user, id, purpose, typed, now).1 is Ok,
    ensures
        ({
            let rows1 = verify_spec(rows, user, id, purpose, typed, now).0;
            &&& verify_spec(rows1, user, id, purpose, typed2, now2).1 == Err::<Seq<char>, (ErrorKind, Seq<char>)>(
                (ErrorKind::Conflict, "this confirmation is no longer valid"@),
            )
            &&& verify_spec(rows1, user, id, purpose, typed2, now2).0 == rows1
        }),
{
}

/// A code is bound to the user and the purpose the action was begun for:
/// anyone else, or any other purpose, is refused and changes nothing.
pub proof fn law_action_code_is_owner_bound(rows: Seq<ActionOtpView>, user: i64, id: int, purpose: Seq<char>, typed: Seq<char>, now: int)
    requires
        actions_ok(rows),
        1 <= id <= rows.len(),
        rows[id - 1].user_id != user || rows[id - 1].purpose != purpose,
    ensures
        verify_spec(rows, user, id, purpose, typed, now).1 is Err,
        verify_spec(rows, user, id, purpose, typed, now).0 == rows,
{
}

/// The code an action was begun with, typed by its user within ten
/// minutes, performs it and hands back exactly the inputs it parked.
pub proof fn law_begun_action_verifies_with_its_code(rows: Seq<ActionOtpView>, code: Seq<char>, now: int)
    requires
        actions_ok(rows),
        rows.len() > 0,
        is_code(code),
        ({
            let row = rows.last();
            &&& !row.consumed
            &&& argon2_verifies(code, row.otp_hash) == Some(true)
            &&& now - row.created_at <= OTP_TTL_MICROS
        }),
    ensures
        verify_spec(rows, rows.last().user_id, rows.len() as int, rows.last().purpose, code, now).1
            == Ok::<Seq<char>, (ErrorKind, Seq<char>)>(rows.last().payload),
{
    lemma_code_is_trimmed(code);
}

/// A wrong code before the third is answered as a bad request and counted,
/// and the action stays open: its code, inputs and owner are unchanged, so
/// the right code can still perform it.
pub proof fn law_earlier_wrong_code_keeps_the_action(rows: Seq<ActionOtpView>, user: i64, id: int, purpose: Seq<char>, typed: Seq<char>, now: int)
    requires
        actions_ok(rows),
        live_action(rows, user, id, purpose),
        rows[id - 1].attempts + 1 < MAX_OTP_ATTEMPTS,
        now - rows[id - 1].created_at <= OTP_TTL_MICROS,
        code_check_spec(Some(rows[id - 1].otp_hash), trimmed(typed)) == CodeCheck::Mismatch,
    ensures
        ({
            let (rows1, answer) = verify_spec(rows, user, id, purpose, typed, now);
            &&& answer == Err::<Seq<char>, (ErrorKind, Seq<char>)>(
                (ErrorKind::BadRequest, wrong_code_msg(rows[id - 1].attempts + 1)),
            )
            &&& live_action(rows1, user, id, purpose)
            &&& rows1[id - 1] == ActionOtpView { attempts: (rows[id - 1].attempts + 1) as i32, ..rows[id - 1] }
            &&& rows1.len() == rows.len()
        }),
{
}

/// The third wrong code cancels the action: it is consumed and no code,
/// right or wrong, performs it afterwards.
pub proof fn law_third_wrong_code_cancels(rows: Seq<ActionOtpView>, user: i64, id: int, purpose: Seq<char>, typed: Seq<char>, now: int, typed2: Seq<char>, now2: int)
    requires
        actions_ok(rows),
        live_action(rows, user, id, purpose),
        rows[id - 1].attempts == MAX_OTP_ATTEMPTS - 1,
        now - rows[id - 1].created_at <= OTP_TTL_MICROS,
        code_check_spec(Some(rows[id - 1].otp_hash), trimmed(typed)) == CodeCheck::Mismatch,
    ensures
        ({
            let rows1 = verify_spec(rows, user, id, purpose, typed, now).0;
            &&& verify_spec(rows, user, id, purpose, typed, now).1 == Err::<Seq<char>, (ErrorKind, Seq<char>)>(
                (ErrorKind::Conflict, "too many invalid codes - the action has been cancelled"@),
            )
            &&& rows1[id - 1].consumed
            &&& verify_spec(rows1, user, id, purpose, typed2, now2).1 is Err
        }),
{
}

/// A six-digit code has no surrounding white space.
proof fn lemma_code_is_trimmed(code: Seq<char>)
    requires
        is_code(code),
    ensures
        trimmed(code) == code,
{
    let n = choose|n: nat| n < 1_000_000 && code == crate::text::padded_digits(n, 6);
    crate::text::lemma_padded_digits_trimmed(n, 6);
}

} // verus!
