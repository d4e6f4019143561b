//! Per-account rate limiting of transfer creation: at most five transfers
//! per account within any sixty seconds.
//!
//! The limiter keeps, per account, the times of its recent attempts. Each
//! check first forgets the account's attempts older than the window, then
//! either refuses (five already within it) or records the new attempt.

use std::collections::HashMap;
use vstd::prelude::*;
use crate::errors::{AppError, ErrorKind};

verus! {

broadcast use vstd::std_specs::hash::group_hash_axioms;

/// Transfers allowed per account within the window.
pub const MAX_TRANSFERS_PER_WINDOW: usize = 5;
/// The window: sixty seconds, in microseconds.
pub const RATE_WINDOW_MICROS: i64 = 60_000_000;

/// The attempts of `acct` recorded in `m`.
pub open spec fn times_of(m: Map<i64, Seq<i64>>, acct: i64) -> Seq<i64> {
    if m.contains_key(acct) {
        m[acct]
    } else {
        Seq::empty()
    }
}

/// The times among `ts` within the window before `now`, in their order.
pub open spec fn recent(ts: Seq<i64>, now: int) -> Seq<i64>
    decreases ts.len(),
{
    if ts.len() == 0 {
        ts
    } else {
        let r = recent(ts.drop_last(), now);
        if now - ts.last() <= RATE_WINDOW_MICROS {
            r.push(ts.last())
        } else {
            r
        }
    }
}

/// A check by `acct` at `now`: the account's attempts outside the window
/// are forgotten; refused when five remain, else the attempt is recorded.
pub open spec fn rate_check_spec(m: Map<i64, Seq<i64>>, acct: i64, now: int) -> (Map<i64, Seq<i64>>, Result<(), (ErrorKind, Seq<char>)>) {
    let kept = recent(times_of(m, acct), now);
    if kept.len() >= MAX_TRANSFERS_PER_WINDOW {
        (m.insert(acct, kept), Err((ErrorKind::Conflict, "rate limit: more than 5 transfers in 60s"@)))
    } else {
        (m.insert(acct, kept.push(now as i64)), Ok(()))
    }
}

/// The recent attempts of every account, by account.
pub struct RateLimiter {
    attempts: HashMap<i64, Vec<i64>>,
}

impl View for RateLimiter {
    type V = Map<i64, Seq<i64>>;

    closed spec fn view(&self) -> Map<i64, Seq<i64>> {
        self.attempts@.map_values(|v: Vec<i64>| v@)
    }
}

impl RateLimiter {
    /// A limiter that has seen no attempt.
    pub fn new() -> (r: RateLimiter)
        ensures
            r@ == Map::<i64, Seq<i64>>::empty(),
    {
        let r = RateLimiter { attempts: HashMap::new() };
        assert(r@ =~= Map::<i64, Seq<i64>>::empty());
        r
    }

    /// Checks and records an attempt by account `acct` at time `now`.
    pub fn check(&mut self, acct: i64, now: i64) -> (r: Result<(), AppError>)
        ensures
            final(self)@ == rate_check_spec(old(self)@, acct, now as int).0,
            r is Ok <==> rate_check_spec(old(self)@, acct, now as int).1 is Ok,
            r matches Err(e) ==> Err::<(), (ErrorKind, Seq<char>)>(e@) == rate_check_spec(old(self)@, acct, now as int).1,
    {
        let ghost m0 = self@;
        let times: Vec<i64> = match self.attempts.remove(&acct) {
            Some(v) => v,
            None => Vec::new(),
        };
        assert(times@ == times_of(m0, acct));
        let n = times.len();
        let mut kept: Vec<i64> = Vec::new();
        let mut i: usize = 0;
        while i < n
            invariant
                n == times@.len(),
                i <= n,
                kept@ == recent(times@.subrange(0, i as int), now as int),
            decreases n - i,
        {
            let t = times[i];
            proof {
                assert(times@.subrange(0, i + 1).drop_last() =~= times@.subrange(0, i as int));
                assert(times@.subrange(0, i + 1).last() == t);
            }
            if (now as i128) - (t as i128) <= RATE_WINDOW_MICROS as i128 {
                kept.push(t);
            }
            i = i + 1;
        }
        proof {
            assert(times@.subrange(0, n as int) =~= times@);
        }
        let ghost mid = self.attempts@;
        if kept.len() >= MAX_TRANSFERS_PER_WINDOW {
            let ghost k = kept@;
            self.attempts.insert(acct, kept);
            proof {
                assert(self@ =~= m0.insert(acct, k));
            }
            return Err(AppError::Conflict("rate limit: more than 5 transfers in 60s".to_owned()));
        }
        kept.push(now);
        let ghost k = kept@;
        self.attempts.insert(acct, kept);
        proof {
            assert(self@ =~= m0.insert(acct, k));
        }
        Ok(())
    }
}

/// Keeping the recent times twice keeps the same times.
pub proof fn lemma_recent_idempotent(ts: Seq<i64>, now: int)
    ensures
        recent(recent(ts, now), now) == recent(ts, now),
    decreases ts.len(),
{
    if ts.len() > 0 {
        lemma_recent_idempotent(ts.drop_last(), now);
        let r = recent(ts.drop_last(), now);
        if now - ts.last() <= RATE_WINDOW_MICROS {
            assert(r.push(ts.last()).drop_last() =~= r);
        }
    }
}

/// After any accepted attempt, the account has at most five attempts
/// within the window: a burst of more than five transfers in sixty seconds
/// is cut off at the sixth.
pub proof fn law_rate_limit_caps_each_window(m: Map<i64, Seq<i64>>, acct: i64, now: int)
    requires
        rate_check_spec(m, acct, now).1 is Ok,
        i64::MIN <= now <= i64::MAX,
    ensures
        recent(times_of(rate_check_spec(m, acct, now).0, acct), now).len() <= MAX_TRANSFERS_PER_WINDOW,
{
    let kept = recent(times_of(m, acct), now);
    lemma_recent_idempotent(times_of(m, acct), now);
    assert(kept.push(now as i64).drop_last() =~= kept);
}

/// A refused attempt is not recorded, so refusals do not extend the wait.
pub proof fn law_refusal_records_nothing_new(m: Map<i64, Seq<i64>>, acct: i64, now: int)
    requires
        rate_check_spec(m, acct, now).1 is Err,
    ensures
        rate_check_spec(m, acct, now).0 == m.insert(acct, recent(times_of(m, acct), now)),
{
}

} // verus!
