//! The time scheduler: pending (event, ready-at) pairs, popped strictly in
//! deadline order, with ties broken by the order the timeouts were
//! scheduled. A timeout never leaves the scheduler before its deadline has
//! passed, and popping never blocks.
//!
//! The clock is a millisecond counter handed in by the caller, so tests and
//! the outer loop control time explicitly. The pending timeouts are held in
//! the order they were scheduled: scheduling appends, and popping removes
//! the earliest-held timeout among those with the soonest deadline.

use vstd::prelude::*;
use crate::events::GameEvent;

verus! {

/// The longest delay, in milliseconds, that any single scheduling request
/// of the game carries: the player's bomb recovery, at 4000 ms the
/// largest of the game's delays (bomb fuse 3000 ms, enemy movement
/// cadence 500 ms, bomb fire duration 200 ms). The game's invariants
/// hold every configurable delay — a level's fire durations and the
/// player's recovery time — to this bound too, so a clock reading that
/// leaves this much headroom keeps every deadline representable. The
/// scheduler itself accepts any representable deadline.
pub const MAX_EVENT_DELAY_MILLIS: u64 = 4000;

/// A `Timeout` wraps a `GameEvent` which shall be released after a period
/// of time.
#[derive(Clone, Copy, Debug, PartialEq, Eq, Structural)]
pub struct Timeout {
    /// The clock reading, in milliseconds, at which the timeout was
    /// created.
    pub creation_time: u64,

    /// The milliseconds that shall pass from creation for the timeout to
    /// expire.
    pub expire_after: u64,

    /// The `GameEvent` to be released after the timeout expiration.
    pub event: GameEvent,
}

impl Timeout {
    /// The absolute clock reading at which the timeout expires.
    pub open spec fn spec_deadline(self) -> int {
        self.creation_time + self.expire_after
    }

    /// Whether the deadline fits the clock representation.
    pub open spec fn fits(self) -> bool {
        self.creation_time + self.expire_after <= u64::MAX
    }

    /// Create a new `Timeout` given the current clock reading, some
    /// milliseconds to wait and the `GameEvent` to wrap.
    pub fn new(now: u64, millis: u64, event: GameEvent) -> (t: Timeout)
        requires
            now + millis <= u64::MAX,
        ensures
            t == (Timeout { creation_time: now, expire_after: millis, event }),
    {
        Timeout { creation_time: now, expire_after: millis, event }
    }

    /// Return the clock reading at which the `Timeout` shall expire.
    pub fn expiration_time(&self) -> (d: u64)
        requires
            self.fits(),
        ensures
            d == self.spec_deadline(),
    {
        self.creation_time + self.expire_after
    }

    /// Return whether or not the `Timeout` has expired: the milliseconds
    /// to wait have passed since its creation.
    pub fn expired(&self, now: u64) -> (b: bool)
        requires
            self.fits(),
        ensures
            b == (self.spec_deadline() <= now),
    {
        self.expiration_time() <= now
    }
}

/// The `TimeController` manages the events that shall be released after a
/// period of time.
pub struct TimeController {
    /// The pending timeouts, in the order they were scheduled.
    pending: Vec<Timeout>,
}

impl View for TimeController {
    type V = Seq<Timeout>;

    /// The pending timeouts, in the order they were scheduled.
    closed spec fn view(&self) -> Seq<Timeout> {
        self.pending@
    }
}

impl TimeController {
    /// Every pending deadline fits the clock representation.
    pub open spec fn wf(self) -> bool {
        forall|i: int| 0 <= i < self@.len() ==> (#[trigger] self@[i]).fits()
    }

    /// Create a new `TimeController` with no pending timeout.
    pub fn new() -> (t: TimeController)
        ensures
            t.wf(),
            t@ == Seq::<Timeout>::empty(),
    {
        let t = TimeController { pending: Vec::new() };
        proof {
            assert(t@ =~= Seq::<Timeout>::empty());
        }
        t
    }

    /// Schedule a new `Timeout` to release a `GameEvent` once `millis`
    /// milliseconds have passed after the clock reading `now`.
    ///
    /// A deadline beyond the clock representation is a programming error
    /// outside all realistic delays, so such inputs are excluded.
    pub fn schedule_event_in(&mut self, now: u64, millis: u64, event: GameEvent)
        requires
            old(self).wf(),
            now + millis <= u64::MAX,
        ensures
            final(self).wf(),
            final(self)@ == old(self)@.push(
                Timeout { creation_time: now, expire_after: millis, event },
            ),
    {
        let timeout = Timeout::new(now, millis, event);
        self.pending.push(timeout);
        proof {
            assert forall|i: int| 0 <= i < self@.len() implies (#[trigger] self@[i]).fits() by {
                if i < old(self)@.len() {
                    assert(self@[i] == old(self)@[i]);
                }
            };
        }
    }

    /// Pop the `GameEvent` of the soonest-expiring pending `Timeout`, if
    /// its deadline has passed at the clock reading `now`; never block,
    /// and never release a timeout early. Among equal deadlines the
    /// timeout scheduled first leaves first.
    pub fn pop_event(&mut self, now: u64) -> (r: Option<GameEvent>)
        requires
            old(self).wf(),
        ensures
            final(self).wf(),
            (r is None) <==> (forall|i: int|
                0 <= i < old(self)@.len() ==> (#[trigger] old(self)@[i]).spec_deadline() > now),
            r is None ==> *final(self) == *old(self),
            r matches Some(ev) ==> exists|i: int|
                #[trigger] pops_soonest(old(self)@, final(self)@, ev, now as int, i),
    {
        if !self.has_any_expired_timeout(now) {
            return None;
        }
        let ghost pre = self@;

        // Find the earliest-scheduled pending timeout with the soonest
        // deadline.
        let mut best: usize = 0;
        let mut k: usize = 1;
        while k < self.pending.len()
            invariant
                self.wf(),
                self@ == pre,
                0 < k <= self@.len(),
                0 <= best < k,
                forall|j: int|
                    0 <= j < best ==> (#[trigger] self@[j]).spec_deadline()
                        > self@[best as int].spec_deadline(),
                forall|j: int|
                    best < j < k ==> (#[trigger] self@[j]).spec_deadline()
                        >= self@[best as int].spec_deadline(),
            decreases self@.len() - k,
        {
            let cand: u64 = self.pending[k].expiration_time();
            let cur: u64 = self.pending[best].expiration_time();
            if cand < cur {
                best = k;
            }
            k = k + 1;
        }

        proof {
            // Some pending timeout has expired, and the chosen one's
            // deadline comes no later, so it has expired too.
            let i = choose|i: int|
                0 <= i < self@.len() && (#[trigger] self@[i]).spec_deadline() <= now;
        }
        let timeout = self.pending.remove(best);
        proof {
            pre.remove_ensures(best as int);
            assert(pops_soonest(pre, self@, timeout.event, now as int, best as int));
        }
        Some(timeout.event)
    }

    /// Remove all the scheduled timeouts.
    pub fn clear(&mut self)
        ensures
            final(self).wf(),
            final(self)@ == Seq::<Timeout>::empty(),
    {
        self.pending.clear();
        proof {
            assert(self@ =~= Seq::<Timeout>::empty());
        }
    }

    /// Check if there is any expired `Timeout` among the pending ones.
    fn has_any_expired_timeout(&self, now: u64) -> (b: bool)
        requires
            self.wf(),
        ensures
            b == exists|i: int|
                0 <= i < self@.len() && (#[trigger] self@[i]).spec_deadline() <= now,
    {
        let mut k: usize = 0;
        while k < self.pending.len()
            invariant
                self.wf(),
                0 <= k <= self@.len(),
                forall|i: int| 0 <= i < k ==> (#[trigger] self@[i]).spec_deadline() > now,
            decreases self@.len() - k,
        {
            if self.pending[k].expired(now) {
                return true;
            }
            k = k + 1;
        }
        false
    }
}

/// What one successful pop does: the pending entry at index `i` leaves,
/// it had expired at `now`, every entry scheduled before it has a
/// strictly later deadline, and no entry at all has a sooner one.
pub open spec fn pops_soonest(
    pre: Seq<Timeout>,
    post: Seq<Timeout>,
    ev: GameEvent,
    now: int,
    i: int,
) -> bool {
    &&& 0 <= i < pre.len()
    &&& pre[i].spec_deadline() <= now
    &&& ev == pre[i].event
    &&& post == pre.remove(i)
    &&& forall|j: int| 0 <= j < i ==> (#[trigger] pre[j]).spec_deadline() > pre[i].spec_deadline()
    &&& forall|j: int|
        i < j < pre.len() ==> (#[trigger] pre[j]).spec_deadline() >= pre[i].spec_deadline()
}

/// Scheduler ordering law: the popped timeout's deadline is no later than
/// the deadline of any timeout it leaves behind, so the deadlines of
/// successive pops never decrease; and `pop_event` only ever returns a
/// timeout whose deadline has passed.
pub proof fn lemma_scheduler_ordering(
    pre: Seq<Timeout>,
    post: Seq<Timeout>,
    ev: GameEvent,
    now: int,
    i: int,
    j: int,
)
    requires
        pops_soonest(pre, post, ev, now, i),
        0 <= j < pre.len(),
        j != i,
    ensures
        pre[i].spec_deadline() <= pre[j].spec_deadline(),
        pre[i].spec_deadline() <= now,
{
}

/// Scheduler tie-break law: when the popped timeout shares its deadline
/// with another pending one, the popped one stands earlier in the pending
/// sequence — and the sequence holds timeouts in the order they were
/// scheduled, so equal deadlines leave in scheduling order.
pub proof fn lemma_scheduler_tie_break(
    pre: Seq<Timeout>,
    post: Seq<Timeout>,
    ev: GameEvent,
    now: int,
    i: int,
    j: int,
)
    requires
        pops_soonest(pre, post, ev, now, i),
        0 <= j < pre.len(),
        j != i,
        pre[i].spec_deadline() == pre[j].spec_deadline(),
    ensures
        i < j,
{
}

} // verus!
