//! The per-user draw cooldown: a draw is accepted only once the window since
//! the user's last accepted draw has passed.

use std::collections::HashMap;
use vstd::prelude::*;

verus! {

broadcast use vstd::std_specs::hash::group_hash_axioms;

/// Length of the cooldown window, in milliseconds.
pub const COOLDOWN_MS: u64 = 5000;

/// Milliseconds between `prev` and `now`; a clock that went back counts as
/// no time at all.
pub open spec fn elapsed_ms(prev: u64, now: u64) -> int {
    if now >= prev {
        now - prev
    } else {
        0
    }
}

/// The wait reported for a rejected draw: the rest of the window in whole
/// seconds, rounded down, but never less than one.
pub open spec fn wait_secs(prev: u64, now: u64) -> int {
    let rest = (COOLDOWN_MS - elapsed_ms(prev, now)) / 1000;
    if rest < 1 {
        1
    } else {
        rest
    }
}

/// Whether a draw at `now` falls inside the window opened at `prev`.
pub open spec fn within_window(prev: u64, now: u64) -> bool {
    elapsed_ms(prev, now) < COOLDOWN_MS
}

/// What the guard answers to a draw attempt.
#[derive(Clone, Copy, Debug, PartialEq, Eq, Structural)]
pub enum CooldownDecision {
    Accepted,
    Rejected { wait_secs: u64 },
}

/// The decision for a user whose last accepted draw (if any) was `last`.
pub open spec fn decide(last: Option<u64>, now: u64) -> CooldownDecision {
    match last {
        Some(prev) => if within_window(prev, now) {
            CooldownDecision::Rejected { wait_secs: wait_secs(prev, now) as u64 }
        } else {
            CooldownDecision::Accepted
        },
        None => CooldownDecision::Accepted,
    }
}

/// The last accepted draw a map records for a user.
pub open spec fn last_draw(m: Map<i64, u64>, user_id: i64) -> Option<u64> {
    if m.contains_key(user_id) {
        Some(m[user_id])
    } else {
        None
    }
}

/// The guard's state after deciding on a draw: an accepted draw records
/// `now`, a rejected one changes nothing.
pub open spec fn mark(m: Map<i64, u64>, user_id: i64, now: u64) -> Map<i64, u64> {
    if decide(last_draw(m, user_id), now) == CooldownDecision::Accepted {
        m.insert(user_id, now)
    } else {
        m
    }
}

/// Time of the last accepted draw of each user who has drawn.
pub struct CooldownGuard {
    last: HashMap<i64, u64>,
}

impl View for CooldownGuard {
    type V = Map<i64, u64>;

    closed spec fn view(&self) -> Map<i64, u64> {
        self.last@
    }
}

impl CooldownGuard {
    /// A guard under which no user has drawn.
    pub fn new() -> (r: CooldownGuard)
        ensures
            r@ == Map::<i64, u64>::empty(),
    {
        CooldownGuard { last: HashMap::new() }
    }

    /// Decides on a draw by `user_id` at `now` (milliseconds on a monotonic
    /// clock) and, when it is accepted, records `now` in the same step.
    pub fn check_and_mark(&mut self, user_id: i64, now: u64) -> (r: CooldownDecision)
        ensures
            r == decide(last_draw(old(self)@, user_id), now),
            final(self)@ == mark(old(self)@, user_id, now),
    {
        match self.last.get(&user_id) {
            Some(prev) => {
                let prev: u64 = *prev;
                let elapsed: u64 = if now >= prev {
                    now - prev
                } else {
                    0
                };
                if elapsed < COOLDOWN_MS {
                    let rest: u64 = (COOLDOWN_MS - elapsed) / 1000;
                    let wait: u64 = if rest < 1 {
                        1
                    } else {
                        rest
                    };
                    CooldownDecision::Rejected { wait_secs: wait }
                } else {
                    self.last.insert(user_id, now);
                    CooldownDecision::Accepted
                }
            },
            None => {
                self.last.insert(user_id, now);
                CooldownDecision::Accepted
            },
        }
    }
}

} // verus!
