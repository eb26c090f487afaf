//! Virtual time: instants, durations, and the virtual clock.
//!
//! An `Instant` is an opaque, totally ordered virtual timestamp measured in
//! nanoseconds from the start of the run. The clock never moves backward; the
//! scheduler advances it only when no task is runnable, and then directly to
//! the next pending deadline.

use vstd::prelude::*;

verus! {

/// A virtual timestamp: nanoseconds since the runtime was constructed.
#[derive(Clone, Copy, Debug, PartialEq, Eq, Structural)]
pub struct Instant {
    pub nanos: u64,
}

/// A non-negative span of virtual time, in nanoseconds.
#[derive(Clone, Copy, Debug, PartialEq, Eq, Structural)]
pub struct Duration {
    pub nanos: u64,
}

impl Instant {
    pub fn from_nanos(nanos: u64) -> (r: Instant)
        ensures
            r.nanos == nanos,
    {
        Instant { nanos }
    }

    /// The target instant reached by waiting `d` from `self`; saturates at the
    /// end of representable virtual time rather than wrapping.
    pub fn add_duration(self, d: Duration) -> (r: Instant)
        ensures
            r.nanos == if self.nanos + d.nanos <= u64::MAX {
                self.nanos + d.nanos
            } else {
                u64::MAX as int
            },
    {
        if self.nanos <= u64::MAX - d.nanos {
            Instant { nanos: self.nanos + d.nanos }
        } else {
            Instant { nanos: u64::MAX }
        }
    }

    pub fn le(self, other: Instant) -> (r: bool)
        ensures
            r == (self.nanos <= other.nanos),
    {
        self.nanos <= other.nanos
    }

    pub fn lt(self, other: Instant) -> (r: bool)
        ensures
            r == (self.nanos < other.nanos),
    {
        self.nanos < other.nanos
    }
}

impl Duration {
    pub fn from_nanos(nanos: u64) -> (r: Duration)
        ensures
            r.nanos == nanos,
    {
        Duration { nanos }
    }

    /// One second expressed in virtual nanoseconds.
    pub fn from_secs(secs: u32) -> (r: Duration)
        ensures
            r.nanos == secs * 1_000_000_000,
    {
        Duration { nanos: (secs as u64) * 1_000_000_000 }
    }
}

/// The single source of time for one deterministic runtime instance.
///
/// Invariant: the held instant is non-decreasing over the life of the clock;
/// `advance_to` refuses to move backward by precondition.
#[derive(Clone, Copy, Debug, PartialEq, Eq, Structural)]
pub struct VirtualClock {
    pub current: Instant,
}

impl VirtualClock {
    /// A fresh clock reads zero.
    pub fn new() -> (r: VirtualClock)
        ensures
            r.current.nanos == 0,
    {
        VirtualClock { current: Instant { nanos: 0 } }
    }

    /// The current simulated time.
    pub fn now(&self) -> (r: Instant)
        ensures
            r == self.current,
    {
        self.current
    }

    /// Move the clock forward to `deadline`; never backward.
    pub fn advance_to(&mut self, deadline: Instant)
        requires
            old(self).current.nanos <= deadline.nanos,
        ensures
            final(self).current == deadline,
    {
        self.current = deadline;
    }
}

/// One link of the monotonicity chain: in a sequence of clock readings where
/// each reading is at most the next, an earlier reading is at most a later
/// one.
proof fn lemma_chain_le(times: Seq<u64>, i: int, j: int)
    requires
        forall|k: int| 0 <= k < times.len() - 1 ==> (#[trigger] times[k]) <= times[k + 1],
        0 <= i <= j < times.len(),
    ensures
        times[i] <= times[j],
    decreases j - i,
{
    if i < j {
        lemma_chain_le(times, i, j - 1);
        assert(times[j - 1] <= times[j - 1 + 1]);
    }
}

/// Clock monotonicity across a single run: every transition of the runtime
/// either leaves the clock alone or moves it forward (each mutating method's
/// contract bounds the new reading from below by the old one), so over any
/// sequence of readings taken step by step, `now()` is non-decreasing — a
/// reading taken earlier is at most any reading taken later.
pub proof fn lemma_clock_monotone_run(times: Seq<u64>)
    requires
        forall|k: int| 0 <= k < times.len() - 1 ==> (#[trigger] times[k]) <= times[k + 1],
    ensures
        forall|i: int, j: int| 0 <= i <= j < times.len() ==> times[i] <= times[j],
{
    assert forall|i: int, j: int| 0 <= i <= j < times.len() implies times[i] <= times[j] by {
        lemma_chain_le(times, i, j);
    }
}

} // verus!
