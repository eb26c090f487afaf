//! The timer queue: an ordered registry of pending wake requests.
//!
//! Entries are kept sorted by `(deadline, id)`, and registration ids grow
//! strictly, so entries with equal deadlines fire in registration order.
//! This first-in-first-out tie-break keeps waiter selection independent of
//! any hashing, which the determinism guarantee of the runtime requires.

use vstd::prelude::*;
use crate::clock::Instant;

verus! {

/// One pending wake request: fire the waiting task at `deadline`.
///
/// `id` is the registration number, unique over the life of the queue and
/// strictly increasing, so it doubles as the cancellation handle and as the
/// tie-break for equal deadlines.
#[derive(Clone, Copy, Debug, PartialEq, Eq, Structural)]
pub struct TimerEntry {
    pub deadline: u64,
    pub id: u64,
    pub task: usize,
}

/// `(deadline, id)` is strictly increasing along the sequence.
pub open spec fn entries_sorted(s: Seq<TimerEntry>) -> bool {
    forall|i: int, j: int|
        0 <= i < j < s.len() ==> (s[i].deadline < s[j].deadline || (s[i].deadline
            == s[j].deadline && s[i].id < s[j].id))
}

/// Every registration id in the sequence is below `bound`.
pub open spec fn ids_below(s: Seq<TimerEntry>, bound: u64) -> bool {
    forall|i: int| 0 <= i < s.len() ==> s[i].id < bound
}

/// No registration id occurs twice.
pub open spec fn ids_distinct(s: Seq<TimerEntry>) -> bool {
    forall|i: int, j: int| 0 <= i < j < s.len() ==> s[i].id != s[j].id
}

/// The ordered registry of pending deadlines.
pub struct TimerQueue {
    pub entries: Vec<TimerEntry>,
    pub next_id: u64,
}

/// First index of `s` whose deadline exceeds `deadline`; `s.len()` if none
/// does. On a sorted sequence this is both the insertion point for a new
/// entry with that deadline (after its equals, keeping registration order)
/// and the cut between due and pending entries when `deadline` is "now".
fn split_point(s: &Vec<TimerEntry>, deadline: u64) -> (k: usize)
    requires
        entries_sorted(s@),
    ensures
        k <= s@.len(),
        forall|j: int| 0 <= j < k ==> s@[j].deadline <= deadline,
        forall|j: int| k <= j < s@.len() ==> s@[j].deadline > deadline,
{
    let mut k: usize = 0;
    while k < s.len() && s[k].deadline <= deadline
        invariant
            k <= s@.len(),
            entries_sorted(s@),
            forall|j: int| 0 <= j < k ==> s@[j].deadline <= deadline,
        decreases s@.len() - k,
    {
        k = k + 1;
    }
    k
}

impl TimerQueue {
    /// Sorted, with ids unique and below the next to be handed out.
    pub open spec fn wf(self) -> bool {
        &&& entries_sorted(self.entries@)
        &&& ids_below(self.entries@, self.next_id)
        &&& ids_distinct(self.entries@)
    }

    pub fn new() -> (r: TimerQueue)
        ensures
            r.wf(),
            r.entries@.len() == 0,
            r.next_id == 0,
    {
        TimerQueue { entries: Vec::new(), next_id: 0 }
    }

    pub fn len(&self) -> (r: usize)
        ensures
            r == self.entries@.len(),
    {
        self.entries.len()
    }

    pub fn is_empty(&self) -> (r: bool)
        ensures
            r == (self.entries@.len() == 0),
    {
        self.entries.len() == 0
    }

    /// Register a wake request for `task` at `deadline`; the returned id
    /// cancels it. The new entry lands after every entry with an earlier or
    /// equal deadline, so equal deadlines fire in registration order.
    pub fn schedule(&mut self, deadline: u64, task: usize) -> (id: u64)
        requires
            old(self).wf(),
            old(self).next_id < u64::MAX,
        ensures
            final(self).wf(),
            id == old(self).next_id,
            final(self).next_id == old(self).next_id + 1,
            exists|k: int|
                0 <= k <= old(self).entries@.len() && final(self).entries@ == old(
                    self).entries@.insert(k, TimerEntry { deadline, id, task }) && (forall|j: int|
                    0 <= j < k ==> old(self).entries@[j].deadline <= deadline) && (forall|j: int|
                    k <= j < old(self).entries@.len() ==> old(self).entries@[j].deadline
                        > deadline),
    {
        let k = split_point(&self.entries, deadline);
        let id = self.next_id;
        self.next_id = self.next_id + 1;
        let entry = TimerEntry { deadline, id, task };
        self.entries.insert(k, entry);
        proof {
            let s0 = old(self).entries@;
            let s1 = self.entries@;
            assert forall|i: int, j: int| 0 <= i < j < s1.len() implies (s1[i].deadline
                < s1[j].deadline || (s1[i].deadline == s1[j].deadline && s1[i].id
                < s1[j].id)) by {
                assert(s1 == s0.insert(k as int, entry));
            }
            assert(final(self).entries@ == s0.insert(k as int, entry));
        }
        id
    }

    /// The minimum pending deadline, which is the head of the sorted queue.
    pub fn next_deadline(&self) -> (r: Option<Instant>)
        requires
            self.wf(),
        ensures
            match r {
                Option::None => self.entries@.len() == 0,
                Option::Some(d) => self.entries@.len() > 0 && d.nanos == self.entries@[0].deadline
                    && forall|i: int|
                    0 <= i < self.entries@.len() ==> d.nanos <= self.entries@[i].deadline,
            },
    {
        if self.entries.len() == 0 {
            Option::None
        } else {
            Option::Some(Instant { nanos: self.entries[0].deadline })
        }
    }

    /// Remove and return, in firing order, every entry whose deadline has been
    /// reached; entries strictly beyond `now` stay pending.
    pub fn drain_due(&mut self, now: u64) -> (fired: Vec<TimerEntry>)
        requires
            old(self).wf(),
        ensures
            final(self).wf(),
            final(self).next_id == old(self).next_id,
            old(self).entries@ == fired@ + final(self).entries@,
            forall|i: int| 0 <= i < fired@.len() ==> fired@[i].deadline <= now,
            forall|i: int|
                0 <= i < final(self).entries@.len() ==> final(self).entries@[i].deadline > now,
    {
        let mut fired: Vec<TimerEntry> = Vec::new();
        while self.entries.len() > 0 && self.entries[0].deadline <= now
            invariant
                old(self).entries@ == fired@ + self.entries@,
                entries_sorted(old(self).entries@),
                ids_below(old(self).entries@, old(self).next_id),
                ids_distinct(old(self).entries@),
                self.next_id == old(self).next_id,
                forall|i: int| 0 <= i < fired@.len() ==> fired@[i].deadline <= now,
            decreases self.entries@.len(),
    {
            let e = self.entries.remove(0);
            fired.push(e);
        }
        proof {
            let s0 = old(self).entries@;
            let k = fired@.len() as int;
            assert(self.entries@ == s0.subrange(k, s0.len() as int));
            assert forall|i: int| 0 <= i < self.entries@.len() implies self.entries@[i].deadline
                > now by {
                if self.entries@.len() > 0 {
                    assert(self.entries@[0].deadline > now);
                    if i > 0 {
                        assert(s0[k] == self.entries@[0]);
                        assert(s0[k + i] == self.entries@[i]);
                    }
                }
            }
        }
        fired
    }

    /// Cancel the pending entry registered under `id`, if it still is pending;
    /// reports whether one was removed. Used when the task holding a delay or
    /// timeout is dropped before its deadline fires.
    pub fn cancel(&mut self, id: u64) -> (found: bool)
        requires
            old(self).wf(),
        ensures
            final(self).wf(),
            final(self).next_id == old(self).next_id,
            found == exists|i: int| 0 <= i < old(self).entries@.len() && old(self).entries@[i].id == id,
            found ==> exists|i: int|
                0 <= i < old(self).entries@.len() && old(self).entries@[i].id == id && final(
                    self).entries@ == old(self).entries@.remove(i),
            !found ==> *final(self) == *old(self),
    {
        let mut k: usize = 0;
        let n = self.entries.len();
        while k < n
            invariant
                n == self.entries@.len(),
                k <= n,
                old(self).wf(),
                *self == *old(self),
                forall|j: int| 0 <= j < k ==> self.entries@[j].id != id,
            decreases n - k,
        {
            if self.entries[k].id == id {
                self.entries.remove(k);
                proof {
                    let s0 = old(self).entries@;
                    let s1 = self.entries@;
                    s0.remove_ensures(k as int);
                    assert(s1 == s0.remove(k as int));
                    assert forall|i: int, j: int| 0 <= i < j < s1.len() implies (s1[i].deadline
                        < s1[j].deadline || (s1[i].deadline == s1[j].deadline && s1[i].id
                        < s1[j].id)) by {
                        if i < k {
                            assert(s1[i] == s0[i]);
                        } else {
                            assert(s1[i] == s0[i + 1]);
                        }
                        if j < k {
                            assert(s1[j] == s0[j]);
                        } else {
                            assert(s1[j] == s0[j + 1]);
                        }
                    }
                    assert forall|i: int| 0 <= i < s1.len() implies s1[i].id < self.next_id by {
                        if i < k {
                            assert(s1[i] == s0[i]);
                        } else {
                            assert(s1[i] == s0[i + 1]);
                        }
                    }
                    assert forall|i: int, j: int| 0 <= i < j < s1.len() implies s1[i].id
                        != s1[j].id by {
                        if i < k {
                            assert(s1[i] == s0[i]);
                        } else {
                            assert(s1[i] == s0[i + 1]);
                        }
                        if j < k {
                            assert(s1[j] == s0[j]);
                        } else {
                            assert(s1[j] == s0[j + 1]);
                        }
                    }
                }
                return true;
            }
            k = k + 1;
        }
        false
    }
}

} // verus!
