//! User records and the eligibility gate: one draw per identity per
//! cooldown window.

use vstd::prelude::*;
use crate::exclusion::ExclusionSet;

verus! {

/// One record per distinct requester identity.  Identity `0` is reserved for
/// the synthetic meta record that aggregates every requester's history.
pub struct UserRecord {
    /// Stable identifier of the requester; `0` is the meta record.
    pub identity: u64,
    /// Pool indices already dispensed to this identity.
    pub history: ExclusionSet,
    /// Unix time (seconds) of the most recent successful draw; `None` means
    /// the identity has never drawn.
    pub last_draw_time: Option<u64>,
}

/// Outcome of the eligibility gate.
pub enum Eligibility {
    /// The requester may draw now.
    Allowed,
    /// The requester must wait; the payload is the number of whole hours
    /// remaining until the next draw is allowed.
    Throttled(u64),
}

/// Elapsed whole hours from `t` to `now`, truncated toward zero (negative
/// when `t` lies in the future).
pub open spec fn whole_hours(t: u64, now: u64) -> int {
    if now >= t {
        (now - t) / 3600
    } else {
        -((t - now) / 3600)
    }
}

/// The cooldown between two successful draws by one identity, in hours.
pub open spec fn cooldown_hours() -> int {
    24
}

/// Whether a record whose last successful draw was at `t` may draw again at
/// `now`.
pub open spec fn draw_allowed(last: Option<u64>, now: u64) -> bool {
    match last {
        Option::None => true,
        Option::Some(t) => whole_hours(t, now) >= cooldown_hours(),
    }
}

impl UserRecord {
    /// A fresh record for `identity`: empty history over a pool of
    /// `pool_size` slots, never drawn.
    pub fn fresh(identity: u64, pool_size: usize) -> (r: Self)
        ensures
            r.identity == identity,
            r.history.pool_size() == pool_size,
            r.history@ == Set::<int>::empty(),
            r.last_draw_time is None,
    {
        UserRecord { identity, history: ExclusionSet::empty(pool_size), last_draw_time: None }
    }

    /// An independent copy of this record.
    pub fn duplicate(&self) -> (r: Self)
        ensures
            r.identity == self.identity,
            r.history.pool_size() == self.history.pool_size(),
            r.history@ == self.history@,
            r.last_draw_time == self.last_draw_time,
    {
        UserRecord {
            identity: self.identity,
            history: self.history.duplicate(),
            last_draw_time: self.last_draw_time,
        }
    }
}

/// The eligibility gate.  If the record has never drawn, or its last draw
/// lies a full cooldown in the past, the draw is allowed and the cooldown
/// timestamp advances to `now`; otherwise the draw is denied, the remaining
/// whole hours are reported, and the record is left untouched.
pub fn check_and_touch(rec: &mut UserRecord, now: u64) -> (e: Eligibility)
    ensures
        final(rec).identity == old(rec).identity,
        final(rec).history == old(rec).history,
        match e {
            Eligibility::Allowed => {
                &&& draw_allowed(old(rec).last_draw_time, now)
                &&& final(rec).last_draw_time == Some(now)
            },
            Eligibility::Throttled(h) => {
                &&& !draw_allowed(old(rec).last_draw_time, now)
                &&& old(rec).last_draw_time is Some
                &&& h == cooldown_hours() - whole_hours(old(rec).last_draw_time->0, now)
                &&& h >= 1
                &&& *final(rec) == *old(rec)
            },
        },
{
    match rec.last_draw_time {
        Option::None => {
            rec.last_draw_time = Some(now);
            Eligibility::Allowed
        },
        Option::Some(t) => {
            if now >= t {
                let hours = (now - t) / 3600;
                if hours >= 24 {
                    rec.last_draw_time = Some(now);
                    Eligibility::Allowed
                } else {
                    Eligibility::Throttled(24 - hours)
                }
            } else {
                proof {
                    assert(((t - now) as int) / 3600 < 0x1000000000000000) by (nonlinear_arith)
                        requires
                            t >= now,
                    ;
                }
                let behind = (t - now) / 3600;
                Eligibility::Throttled(24 + behind)
            }
        },
    }
}

} // verus!
