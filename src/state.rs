//! The runtime state that every reconcile updates and the status report reads.
use vstd::prelude::*;

verus! {

/// Controller health, shared by all reconciles. It is read and replaced as
/// one value behind a single lock, so a reader never sees one field of an
/// update without the other.
#[derive(Clone, Copy, Debug, PartialEq, Eq, Structural)]
pub struct State {
    /// Time of the latest reconcile attempt, in milliseconds since the Unix epoch.
    pub last_event: i64,
    /// Number of reconciles whose status patch was accepted.
    pub handled_count: u64,
}

/// Relies on chrono's `Utc::now`, read in milliseconds with
/// `DateTime::timestamp_millis`: the wall-clock time, which `Utc::now` never
/// gives before the Unix epoch (it panics on a clock set earlier than that).
#[verifier::external_body]
fn utc_now_millis() -> (r: i64)
    ensures
        r >= 0,
{
    chrono::Utc::now().timestamp_millis()
}

impl State {
    /// The state after an attempt at time `now`: the last event time never
    /// goes back, even where clocks of the machine did.
    pub open spec fn attempted(self, now: i64) -> State {
        State {
            last_event: if now > self.last_event {
                now
            } else {
                self.last_event
            },
            handled_count: self.handled_count,
        }
    }

    /// The state after one more handled event; the count stops at its
    /// largest value.
    pub open spec fn handled(self) -> State {
        State {
            last_event: self.last_event,
            handled_count: if self.handled_count < u64::MAX {
                (self.handled_count + 1) as u64
            } else {
                self.handled_count
            },
        }
    }

    /// A fresh state, stamped with the current time and no handled events.
    pub fn new() -> (r: State)
        ensures
            r.handled_count == 0,
            r.last_event >= 0,
    {
        State { last_event: utc_now_millis(), handled_count: 0 }
    }

    /// Records a reconcile attempt made at time `now`.
    pub fn record_attempt_at(&mut self, now: i64)
        ensures
            *final(self) == old(self).attempted(now),
    {
        if now > self.last_event {
            self.last_event = now;
        }
    }

    /// Records a reconcile attempt made now, by the wall clock.
    pub fn record_attempt(&mut self)
        ensures
            exists|now: i64| now >= 0 && *final(self) == old(self).attempted(now),
            final(self).handled_count == old(self).handled_count,
            final(self).last_event >= old(self).last_event,
    {
        let now = utc_now_millis();
        self.record_attempt_at(now);
    }

    /// Records one more handled event.
    pub fn record_handled(&mut self)
        ensures
            *final(self) == old(self).handled(),
    {
        if self.handled_count < u64::MAX {
            self.handled_count = self.handled_count + 1;
        }
    }
}

} // verus!
