//! The deterministic runtime: one instance owns the virtual clock, the timer
//! queue, the scheduler, the connection registry and the fault injector, and
//! wires them together. Application-facing operations (spawn, now, delay,
//! bind, connect, accept, read, write, close) are state transitions on this
//! one value; the polling loop that actually resumes task bodies lives
//! outside and obeys the decisions taken here.
//!
//! The central invariant: every pending timer deadline lies strictly in the
//! future, every recorded waiter is a live task, and the clock only moves
//! when `step` finds no runnable task — and then exactly to the minimum
//! pending deadline.

use vstd::prelude::*;
use crate::clock::{Duration, Instant, VirtualClock};
use crate::fault::{decision_at, FaultDecision, FaultInjector};
use crate::net::{Addr, Endpoint, IoErrorKind, NetSim, ReadOutcome};
use crate::sched::{Scheduler, TaskState};
use crate::timer::{TimerEntry, TimerQueue};

verus! {

/// Localhost, the address family of the simulated network's convenience
/// handles.
pub const LOCALHOST_IP: u32 = 0x7F00_0001;

/// First ephemeral port handed to a connector.
pub const FIRST_EPHEMERAL_PORT: u16 = 49152;

/// Default ceiling for fault-injected extra latency, in virtual nanoseconds.
pub const DEFAULT_MAX_DELAY_NANOS: u64 = 100_000_000;

/// Default probability of a fault-injected disconnect, per mille.
pub const DEFAULT_DISCONNECT_PER_MILLE: u64 = 10;

/// `w`, if present, names a task below `n`.
pub open spec fn waiter_ok(w: Option<usize>, n: int) -> bool {
    match w {
        Option::Some(t) => (t as int) < n,
        Option::None => true,
    }
}

/// How waking the waiter `w` relates the scheduler after (`s1`) to the
/// scheduler before (`s0`): a suspended waiter becomes runnable at the back
/// of the ready queue; no waiter, or a waiter in any other state, changes
/// nothing.
pub open spec fn woke_waiter(s0: Scheduler, s1: Scheduler, w: Option<usize>) -> bool {
    match w {
        Option::None => s1 == s0,
        Option::Some(t) => if s0.states@[t as int] == TaskState::Suspended {
            s1.states@ == s0.states@.update(t as int, TaskState::Runnable) && s1.ready@
                == s0.ready@.push(t)
        } else {
            s1 == s0
        },
    }
}

/// Some entry among the first `k` of `s` names task `u`.
pub open spec fn among_fired(s: Seq<TimerEntry>, k: int, u: int) -> bool {
    exists|j: int| 0 <= j < k && (#[trigger] s[j]).task == u
}

/// The task states after waking, in order, the tasks named by the first `i`
/// fired timer entries: each suspended waiter becomes runnable; a waiter in
/// any other state (including one already woken by an earlier entry of the
/// same batch) is left alone.
pub open spec fn wake_states(st: Seq<TaskState>, s: Seq<TimerEntry>, i: int) -> Seq<TaskState>
    decreases i,
{
    if i <= 0 {
        st
    } else {
        let prev = wake_states(st, s, i - 1);
        let t = s[i - 1].task as int;
        if 0 <= t < prev.len() && prev[t] == TaskState::Suspended {
            prev.update(t, TaskState::Runnable)
        } else {
            prev
        }
    }
}

/// The ready queue after waking, in order, the tasks named by the first `i`
/// fired timer entries: each newly woken task joins at the back, in firing
/// order — so the batch's wake order, and with it the subsequent execution
/// order, is a function of the timer queue's contents alone.
pub open spec fn wake_ready(rd: Seq<usize>, st: Seq<TaskState>, s: Seq<TimerEntry>, i: int) -> Seq<
    usize,
>
    decreases i,
{
    if i <= 0 {
        rd
    } else {
        let pst = wake_states(st, s, i - 1);
        let prd = wake_ready(rd, st, s, i - 1);
        let t = s[i - 1].task as int;
        if 0 <= t < pst.len() && pst[t] == TaskState::Suspended {
            prd.push(s[i - 1].task)
        } else {
            prd
        }
    }
}

/// `wake_states` and `wake_ready` look only at the first `i` entries, so two
/// entry sequences that agree there wake identically.
proof fn lemma_wake_agree(
    st: Seq<TaskState>,
    rd: Seq<usize>,
    s1: Seq<TimerEntry>,
    s2: Seq<TimerEntry>,
    i: int,
)
    requires
        0 <= i,
        forall|j: int| 0 <= j < i ==> s1[j] == s2[j],
    ensures
        wake_states(st, s1, i) == wake_states(st, s2, i),
        wake_ready(rd, st, s1, i) == wake_ready(rd, st, s2, i),
    decreases i,
{
    if i > 0 {
        lemma_wake_agree(st, rd, s1, s2, i - 1);
    }
}

/// What the scheduler decided when asked for the next thing to do.
#[derive(Clone, Copy, Debug, PartialEq, Eq, Structural)]
pub enum SchedStep {
    /// Resume the named task, which was the front of the ready queue.
    RunTask(usize),
    /// No task was runnable: the clock jumped to the next pending deadline
    /// and the due timers' tasks were woken.
    AdvancedTo(Instant),
    /// No task is runnable and no timer is pending: the run is stuck, and
    /// this is reported rather than hanging.
    NoProgress,
}

/// Who won the race inside a timeout combinator.
#[derive(Clone, Copy, Debug, PartialEq, Eq, Structural)]
pub enum RaceWinner {
    /// The inner operation finished strictly before the deadline.
    Inner,
    /// The deadline fired first (ties go to the timer): a timeout error.
    Timer,
}

/// The deterministic runtime's whole state.
pub struct DeterministicRuntime {
    pub clock: VirtualClock,
    pub timers: TimerQueue,
    pub sched: Scheduler,
    pub net: NetSim,
    pub injector: FaultInjector,
    /// Source port handed to the next connector.
    pub next_port: u16,
}

impl DeterministicRuntime {
    /// Every component is well formed; every pending deadline is strictly in
    /// the future; every timer waiter and network waiter is a live task.
    pub open spec fn wf(self) -> bool {
        &&& self.timers.wf()
        &&& self.sched.wf()
        &&& self.net.wf()
        &&& self.injector.wf()
        &&& forall|i: int|
            0 <= i < self.timers.entries@.len() ==> (#[trigger] self.timers.entries@[i]).deadline
                > self.clock.current.nanos
        &&& forall|i: int|
            0 <= i < self.timers.entries@.len() ==> (#[trigger] self.timers.entries@[i]).task
                < self.sched.states@.len()
        &&& forall|i: int|
            0 <= i < self.net.listeners@.len() ==> waiter_ok(
                (#[trigger] self.net.listeners@[i]).accept_waiter,
                self.sched.states@.len() as int,
            )
        &&& forall|i: int|
            0 <= i < self.net.conns@.len() ==> waiter_ok(
                (#[trigger] self.net.conns@[i]).client_read_waiter,
                self.sched.states@.len() as int,
            ) && waiter_ok(self.net.conns@[i].server_read_waiter, self.sched.states@.len() as int)
    }

    /// A fresh runtime with an explicit reproducibility seed. Recording the
    /// seed of a failing run and passing it back here replays the run.
    pub fn new_with_seed(seed: u64) -> (r: DeterministicRuntime)
        ensures
            r.wf(),
            r.clock.current.nanos == 0,
            r.timers.entries@.len() == 0,
            r.sched.states@.len() == 0,
            r.net.listeners@.len() == 0,
            r.net.conns@.len() == 0,
            r.injector.rng.seed == seed,
            r.injector.decisions_made() == 0,
    {
        DeterministicRuntime {
            clock: VirtualClock::new(),
            timers: TimerQueue::new(),
            sched: Scheduler::new(),
            net: NetSim::new(),
            injector: FaultInjector::new(
                seed,
                DEFAULT_MAX_DELAY_NANOS,
                DEFAULT_DISCONNECT_PER_MILLE,
            ),
            next_port: FIRST_EPHEMERAL_PORT,
        }
    }

    /// A fresh runtime with the default seed.
    pub fn new() -> (r: DeterministicRuntime)
        ensures
            r.wf(),
            r.clock.current.nanos == 0,
            r.sched.states@.len() == 0,
            r.injector.rng.seed == 0,
            r.injector.decisions_made() == 0,
    {
        DeterministicRuntime::new_with_seed(0)
    }

    /// The current simulated time.
    pub fn now(&self) -> (r: Instant)
        ensures
            r == self.clock.current,
    {
        self.clock.now()
    }

    /// Register a new task; it joins the back of the ready queue.
    pub fn spawn(&mut self) -> (id: usize)
        requires
            old(self).wf(),
            old(self).sched.states@.len() < usize::MAX,
        ensures
            final(self).wf(),
            id == old(self).sched.states@.len(),
            final(self).sched.states@ == old(self).sched.states@.push(TaskState::Runnable),
            final(self).sched.ready@ == old(self).sched.ready@.push(id),
            final(self).clock == old(self).clock,
            final(self).timers == old(self).timers,
            final(self).net == old(self).net,
            final(self).injector == old(self).injector,
            final(self).next_port == old(self).next_port,
    {
        self.sched.spawn()
    }

    /// The driver reports the polled task suspended.
    pub fn mark_suspended(&mut self, id: usize)
        requires
            old(self).wf(),
            (id as int) < old(self).sched.states@.len(),
            old(self).sched.states@[id as int] == TaskState::Running,
        ensures
            final(self).wf(),
            final(self).sched.states@ == old(self).sched.states@.update(
                id as int,
                TaskState::Suspended,
            ),
            final(self).sched.ready@ == old(self).sched.ready@,
            final(self).clock == old(self).clock,
            final(self).timers == old(self).timers,
            final(self).net == old(self).net,
            final(self).injector == old(self).injector,
            final(self).next_port == old(self).next_port,
    {
        self.sched.mark_suspended(id)
    }

    /// The driver reports the polled task completed.
    pub fn mark_completed(&mut self, id: usize)
        requires
            old(self).wf(),
            (id as int) < old(self).sched.states@.len(),
            old(self).sched.states@[id as int] == TaskState::Running,
        ensures
            final(self).wf(),
            final(self).sched.states@ == old(self).sched.states@.update(
                id as int,
                TaskState::Completed,
            ),
            final(self).sched.ready@ == old(self).sched.ready@,
            final(self).clock == old(self).clock,
            final(self).timers == old(self).timers,
            final(self).net == old(self).net,
            final(self).injector == old(self).injector,
            final(self).next_port == old(self).next_port,
    {
        self.sched.mark_completed(id)
    }

    /// Wake a task directly (used when one task's completion unblocks a
    /// joiner).
    pub fn wake(&mut self, id: usize) -> (woke: bool)
        requires
            old(self).wf(),
            (id as int) < old(self).sched.states@.len(),
        ensures
            final(self).wf(),
            woke == (old(self).sched.states@[id as int] == TaskState::Suspended),
            woke ==> final(self).sched.states@ == old(self).sched.states@.update(
                id as int,
                TaskState::Runnable,
            ) && final(self).sched.ready@ == old(self).sched.ready@.push(id),
            !woke ==> final(self).sched == old(self).sched,
            final(self).clock == old(self).clock,
            final(self).timers == old(self).timers,
            final(self).net == old(self).net,
            final(self).injector == old(self).injector,
            final(self).next_port == old(self).next_port,
    {
        self.sched.wake(id)
    }

    /// Register a wake-up for `task` at `deadline`. Returns the timer's
    /// cancellation handle, or nothing when the deadline has already been
    /// reached — the caller then simply does not suspend, so a task awaiting
    /// a past deadline is resumed without the clock moving at all.
    pub fn delay(&mut self, task: usize, deadline: Instant) -> (r: Option<u64>)
        requires
            old(self).wf(),
            (task as int) < old(self).sched.states@.len(),
            old(self).timers.next_id < u64::MAX,
        ensures
            final(self).wf(),
            final(self).clock == old(self).clock,
            final(self).sched == old(self).sched,
            final(self).net == old(self).net,
            final(self).injector == old(self).injector,
            final(self).next_port == old(self).next_port,
            match r {
                Option::None => deadline.nanos <= old(self).clock.current.nanos && final(
                    self).timers == old(self).timers,
                Option::Some(id) => {
                    &&& deadline.nanos > old(self).clock.current.nanos
                    &&& id == old(self).timers.next_id
                    &&& final(self).timers.next_id == old(self).timers.next_id + 1
                    &&& exists|k: int|
                        0 <= k <= old(self).timers.entries@.len() && final(self).timers.entries@
                            == old(self).timers.entries@.insert(
                            k,
                            TimerEntry { deadline: deadline.nanos, id, task },
                        )
                },
            },
    {
        if deadline.nanos <= self.clock.current.nanos {
            return Option::None;
        }
        let id = self.timers.schedule(deadline.nanos, task);
        Option::Some(id)
    }

    /// Register a wake-up at `d` from now; returns the deadline together with
    /// the cancellation handle (none when `d` is zero).
    pub fn delay_from(&mut self, task: usize, d: Duration) -> (r: (Instant, Option<u64>))
        requires
            old(self).wf(),
            (task as int) < old(self).sched.states@.len(),
            old(self).timers.next_id < u64::MAX,
        ensures
            final(self).wf(),
            r.0.nanos == if old(self).clock.current.nanos + d.nanos <= u64::MAX {
                old(self).clock.current.nanos + d.nanos
            } else {
                u64::MAX as int
            },
            final(self).clock == old(self).clock,
            final(self).sched == old(self).sched,
            final(self).net == old(self).net,
            match r.1 {
                Option::None => r.0.nanos <= old(self).clock.current.nanos && final(self).timers
                    == old(self).timers,
                Option::Some(id) => r.0.nanos > old(self).clock.current.nanos && id == old(
                    self).timers.next_id && final(self).timers.next_id == old(self).timers.next_id
                    + 1 && exists|k: int|
                    0 <= k <= old(self).timers.entries@.len() && final(self).timers.entries@ == old(
                        self).timers.entries@.insert(
                        k,
                        TimerEntry { deadline: r.0.nanos, id, task },
                    ),
            },
    {
        let deadline = self.clock.now().add_duration(d);
        let reg = self.delay(task, deadline);
        (deadline, reg)
    }

    /// Cancel a pending timer (the task holding it was dropped before the
    /// deadline fired). Reports whether the timer was still pending.
    pub fn cancel_timer(&mut self, id: u64) -> (found: bool)
        requires
            old(self).wf(),
        ensures
            final(self).wf(),
            final(self).clock == old(self).clock,
            final(self).sched == old(self).sched,
            final(self).net == old(self).net,
            found == exists|i: int|
                0 <= i < old(self).timers.entries@.len() && old(self).timers.entries@[i].id == id,
            !found ==> final(self).timers == old(self).timers,
            found ==> exists|i: int|
                0 <= i < old(self).timers.entries@.len() && old(self).timers.entries@[i].id == id
                    && final(self).timers.entries@ == old(self).timers.entries@.remove(i),
    {
        let found = self.timers.cancel(id);
        proof {
            if found {
                let i = choose|i: int|
                    0 <= i < old(self).timers.entries@.len() && old(self).timers.entries@[i].id
                        == id && self.timers.entries@ == old(self).timers.entries@.remove(i);
                old(self).timers.entries@.remove_ensures(i);
            }
        }
        found
    }

    /// One scheduling decision, the heart of the run loop.
    ///
    /// If any task is runnable, the front of the ready queue runs — the clock
    /// does not move. Otherwise, if a timer is pending, the clock jumps
    /// exactly to the minimum pending deadline and every timer due at that
    /// instant fires, waking its task; no task waiting on a later deadline is
    /// touched. Otherwise nothing can ever make progress again and
    /// `NoProgress` reports the deadlock instead of hanging.
    ///
    /// The contract pins both the decision and the whole post-state as
    /// functions of the pre-state (`wake_states`, `wake_ready`): two
    /// runtimes in equal states take equal steps, so a run is determined by
    /// its seed and the order in which the application issues operations.
    pub fn step(&mut self) -> (r: SchedStep)
        requires
            old(self).wf(),
        ensures
            final(self).wf(),
            final(self).clock.current.nanos >= old(self).clock.current.nanos,
            final(self).net == old(self).net,
            final(self).injector == old(self).injector,
            final(self).next_port == old(self).next_port,
            match r {
                SchedStep::RunTask(id) => {
                    &&& old(self).sched.ready@.len() > 0
                    &&& id == old(self).sched.ready@[0]
                    &&& (id as int) < old(self).sched.states@.len()
                    &&& final(self).clock == old(self).clock
                    &&& final(self).timers == old(self).timers
                    &&& final(self).sched.ready@ == old(self).sched.ready@.subrange(
                        1,
                        old(self).sched.ready@.len() as int,
                    )
                    &&& final(self).sched.states@ == old(self).sched.states@.update(
                        id as int,
                        TaskState::Running,
                    )
                },
                SchedStep::AdvancedTo(t) => {
                    &&& old(self).sched.ready@.len() == 0
                    &&& old(self).timers.entries@.len() > 0
                    &&& t.nanos == old(self).timers.entries@[0].deadline
                    &&& forall|i: int|
                        0 <= i < old(self).timers.entries@.len() ==> t.nanos <= (
                        #[trigger] old(self).timers.entries@[i]).deadline
                    &&& old(self).clock.current.nanos < t.nanos
                    &&& final(self).clock.current == t
                    &&& final(self).timers.next_id == old(self).timers.next_id
                    &&& final(self).sched.states@.len() == old(self).sched.states@.len()
                    &&& exists|k: int|
                        {
                            &&& 1 <= k <= old(self).timers.entries@.len()
                            &&& final(self).timers.entries@ == old(self).timers.entries@.subrange(
                                k,
                                old(self).timers.entries@.len() as int,
                            )
                            &&& (forall|j: int|
                                0 <= j < k ==> (#[trigger] old(self).timers.entries@[j]).deadline
                                    <= t.nanos)
                            &&& (forall|j: int|
                                0 <= j < k && old(self).sched.states@[(
                                #[trigger] old(self).timers.entries@[j]).task as int]
                                    == TaskState::Suspended ==> final(self).sched.states@[old(
                                    self).timers.entries@[j].task as int] == TaskState::Runnable)
                            &&& (forall|u: int|
                                0 <= u < old(self).sched.states@.len() && final(
                                    self).sched.states@[u] != old(self).sched.states@[u]
                                    ==> among_fired(old(self).timers.entries@, k, u))
                            &&& final(self).sched.states@ == wake_states(
                                old(self).sched.states@,
                                old(self).timers.entries@,
                                k,
                            )
                            &&& final(self).sched.ready@ == wake_ready(
                                old(self).sched.ready@,
                                old(self).sched.states@,
                                old(self).timers.entries@,
                                k,
                            )
                        }
                    &&& forall|u: int|
                        0 <= u < old(self).sched.states@.len() ==> final(self).sched.states@[u]
                            == old(self).sched.states@[u] || (old(self).sched.states@[u]
                            == TaskState::Suspended && final(self).sched.states@[u]
                            == TaskState::Runnable)
                },
                SchedStep::NoProgress => {
                    &&& old(self).sched.ready@.len() == 0
                    &&& old(self).timers.entries@.len() == 0
                    &&& *final(self) == *old(self)
                },
            },
    {
        let next = self.sched.take_next();
        match next {
            Option::Some(id) => SchedStep::RunTask(id),
            Option::None => {
                let deadline = self.timers.next_deadline();
                match deadline {
                    Option::None => SchedStep::NoProgress,
                    Option::Some(t) => {
                        self.clock.advance_to(t);
                        let fired = self.timers.drain_due(t.nanos);
                        let ghost mid = *self;
                        let ghost pre_sched = old(self).sched;
                        proof {
                            assert forall|j: int| 0 <= j < fired@.len() implies (
                            #[trigger] fired@[j]).task < self.sched.states@.len() by {
                                assert(old(self).timers.entries@[j] == fired@[j]);
                            }
                        }
                        let mut i: usize = 0;
                        let n = fired.len();
                        while i < n
                            invariant
                                n == fired@.len(),
                                i <= n,
                                self.sched.wf(),
                                self.clock == mid.clock,
                                self.timers == mid.timers,
                                self.net == mid.net,
                                self.injector == mid.injector,
                                self.next_port == mid.next_port,
                                self.sched.states@.len() == pre_sched.states@.len(),
                                forall|j: int|
                                    0 <= j < fired@.len() ==> (#[trigger] fired@[j]).task
                                        < self.sched.states@.len(),
                                forall|j: int|
                                    0 <= j < i && pre_sched.states@[(
                                    #[trigger] fired@[j]).task as int] == TaskState::Suspended
                                        ==> self.sched.states@[fired@[j].task as int]
                                        == TaskState::Runnable,
                                forall|u: int|
                                    0 <= u < pre_sched.states@.len() ==> self.sched.states@[u]
                                        == pre_sched.states@[u] || (pre_sched.states@[u]
                                        == TaskState::Suspended && self.sched.states@[u]
                                        == TaskState::Runnable),
                                forall|u: int|
                                    0 <= u < pre_sched.states@.len() && self.sched.states@[u]
                                        != pre_sched.states@[u] ==> (exists|j: int|
                                        0 <= j < i && (#[trigger] fired@[j]).task == u),
                                self.sched.states@ == wake_states(
                                    pre_sched.states@,
                                    fired@,
                                    i as int,
                                ),
                                self.sched.ready@ == wake_ready(
                                    pre_sched.ready@,
                                    pre_sched.states@,
                                    fired@,
                                    i as int,
                                ),
                            decreases n - i,
                        {
                            let task = fired[i].task;
                            self.sched.wake(task);
                            i = i + 1;
                            proof {
                                assert(self.sched.states@ == wake_states(
                                    pre_sched.states@,
                                    fired@,
                                    i as int,
                                ));
                                assert(self.sched.ready@ == wake_ready(
                                    pre_sched.ready@,
                                    pre_sched.states@,
                                    fired@,
                                    i as int,
                                ));
                            }
                        }
                        proof {
                            let k = fired@.len() as int;
                            assert(old(self).timers.entries@ == fired@ + self.timers.entries@);
                            assert(self.timers.entries@ =~= old(self).timers.entries@.subrange(
                                k,
                                old(self).timers.entries@.len() as int,
                            ));
                            assert forall|j: int| 0 <= j < k implies (
                            #[trigger] old(self).timers.entries@[j]).deadline <= t.nanos by {
                                assert(old(self).timers.entries@[j] == fired@[j]);
                            }
                            assert(old(self).timers.entries@[0].deadline <= t.nanos);
                            assert(k >= 1) by {
                                if k == 0 {
                                    assert(self.timers.entries@[0] == old(self).timers.entries@[0]);
                                }
                            }
                            assert forall|j: int|
                                0 <= j < k && old(self).sched.states@[(
                                #[trigger] old(self).timers.entries@[j]).task as int]
                                    == TaskState::Suspended implies self.sched.states@[old(
                                self).timers.entries@[j].task as int] == TaskState::Runnable by {
                                assert(old(self).timers.entries@[j] == fired@[j]);
                            }
                            assert forall|u: int|
                                0 <= u < old(self).sched.states@.len() && self.sched.states@[u]
                                    != old(self).sched.states@[u] implies among_fired(
                                old(self).timers.entries@,
                                k,
                                u,
                            ) by {
                                let j = choose|j: int|
                                    0 <= j < fired@.len() && (#[trigger] fired@[j]).task == u;
                                assert(old(self).timers.entries@[j] == fired@[j]);
                                assert(old(self).timers.entries@[j].task == u);
                            }
                            assert forall|j: int| 0 <= j < k implies fired@[j] == old(
                                self).timers.entries@[j] by {}
                            lemma_wake_agree(
                                pre_sched.states@,
                                pre_sched.ready@,
                                fired@,
                                old(self).timers.entries@,
                                k,
                            );
                        }
                        SchedStep::AdvancedTo(t)
                    },
                }
            },
        }
    }

    /// Bind a listener; fails with `AddrInUse` exactly when the address is
    /// already bound. Nothing else in the runtime changes.
    pub fn bind(&mut self, addr: Addr) -> (r: Result<usize, IoErrorKind>)
        requires
            old(self).wf(),
        ensures
            final(self).wf(),
            final(self).clock == old(self).clock,
            final(self).timers == old(self).timers,
            final(self).sched == old(self).sched,
            final(self).injector == old(self).injector,
            final(self).next_port == old(self).next_port,
            final(self).net.conns@ == old(self).net.conns@,
            match r {
                Result::Err(e) => e == IoErrorKind::AddrInUse && old(self).net.addr_bound(addr)
                    && final(self).net == old(self).net,
                Result::Ok(lid) => {
                    &&& !old(self).net.addr_bound(addr)
                    &&& lid == old(self).net.listeners@.len()
                    &&& final(self).net.listeners@.len() == old(self).net.listeners@.len() + 1
                    &&& forall|i: int|
                        0 <= i < old(self).net.listeners@.len() ==> final(self).net.listeners@[i]
                            == old(self).net.listeners@[i]
                    &&& final(self).net.listeners@[lid as int].addr == addr
                    &&& final(self).net.listeners@[lid as int].active
                    &&& final(self).net.listeners@[lid as int].pending@.len() == 0
                    &&& final(self).net.listeners@[lid as int].accept_waiter is None
                },
            },
    {
        self.net.bind(addr)
    }

    /// Connect to `addr` from a fresh ephemeral localhost port. Fails
    /// immediately with `ConnectionRefused` when no listener holds the
    /// address; on success the new connection's server end joins the
    /// listener's pending queue and a task suspended in `accept` is woken.
    pub fn connect(&mut self, addr: Addr) -> (r: Result<Endpoint, IoErrorKind>)
        requires
            old(self).wf(),
            old(self).net.conns@.len() < usize::MAX,
            old(self).next_port < u16::MAX,
        ensures
            final(self).wf(),
            final(self).clock == old(self).clock,
            final(self).timers == old(self).timers,
            final(self).injector == old(self).injector,
            match r {
                Result::Err(e) => e == IoErrorKind::ConnectionRefused && !old(self).net.addr_bound(
                    addr,
                ) && final(self).net == old(self).net && final(self).sched == old(self).sched
                    && final(self).next_port == old(self).next_port,
                Result::Ok(ep) => {
                    &&& old(self).net.addr_bound(addr)
                    &&& ep.conn == old(self).net.conns@.len()
                    &&& ep.side == crate::net::Side::Client
                    &&& final(self).next_port == old(self).next_port + 1
                    &&& final(self).net.conns@.len() == old(self).net.conns@.len() + 1
                    &&& forall|i: int|
                        0 <= i < old(self).net.conns@.len() ==> final(self).net.conns@[i] == old(
                            self).net.conns@[i]
                    &&& final(self).net.conns@[ep.conn as int].client_addr == (Addr {
                        ip: LOCALHOST_IP,
                        port: old(self).next_port,
                    })
                    &&& final(self).net.conns@[ep.conn as int].server_addr == addr
                    &&& final(self).net.conns@[ep.conn as int].to_server@.len() == 0
                    &&& final(self).net.conns@[ep.conn as int].to_client@.len() == 0
                    &&& !final(self).net.conns@[ep.conn as int].client_closed
                    &&& !final(self).net.conns@[ep.conn as int].server_closed
                    &&& !final(self).net.conns@[ep.conn as int].reset
                    &&& exists|li: int|
                        {
                            &&& 0 <= li < old(self).net.listeners@.len()
                            &&& (#[trigger] old(self).net.listeners@[li]).active
                            &&& old(self).net.listeners@[li].addr == addr
                            &&& final(self).net.listeners@[li].pending@ == old(
                                self).net.listeners@[li].pending@.push(ep.conn)
                            &&& final(self).net.listeners@[li].accept_waiter is None
                            &&& woke_waiter(
                                old(self).sched,
                                final(self).sched,
                                old(self).net.listeners@[li].accept_waiter,
                            )
                        }
                },
            },
    {
        let client_addr = Addr { ip: LOCALHOST_IP, port: self.next_port };
        let out = self.net.connect(client_addr, addr);
        match out.result {
            Result::Err(e) => Result::Err(e),
            Result::Ok(ep) => {
                self.next_port = self.next_port + 1;
                match out.wake {
                    Option::None => {},
                    Option::Some(w) => {
                        proof {
                            let li = choose|li: int|
                                {
                                    &&& 0 <= li < old(self).net.listeners@.len()
                                    &&& (#[trigger] old(self).net.listeners@[li]).active
                                    &&& old(self).net.listeners@[li].addr == addr
                                    &&& out.wake == old(self).net.listeners@[li].accept_waiter
                                };
                            assert(waiter_ok(
                                old(self).net.listeners@[li].accept_waiter,
                                old(self).sched.states@.len() as int,
                            ));
                        }
                        self.sched.wake(w);
                    },
                }
                Result::Ok(ep)
            },
        }
    }

    /// Take one pending inbound connection in arrival order, or record
    /// `task` as the listener's accept waiter and tell the caller to suspend
    /// it.
    pub fn accept(&mut self, lid: usize, task: usize) -> (r: Option<(Endpoint, Addr)>)
        requires
            old(self).wf(),
            (lid as int) < old(self).net.listeners@.len(),
            (task as int) < old(self).sched.states@.len(),
        ensures
            final(self).wf(),
            final(self).clock == old(self).clock,
            final(self).timers == old(self).timers,
            final(self).sched == old(self).sched,
            final(self).injector == old(self).injector,
            final(self).next_port == old(self).next_port,
            final(self).net.conns@ == old(self).net.conns@,
            forall|i: int|
                0 <= i < old(self).net.listeners@.len() && i != lid as int ==> final(
                    self).net.listeners@[i] == old(self).net.listeners@[i],
            match r {
                Option::None => {
                    &&& old(self).net.listeners@[lid as int].pending@.len() == 0
                    &&& final(self).net.listeners@[lid as int].accept_waiter == Option::Some(task)
                },
                Option::Some((ep, peer)) => {
                    &&& old(self).net.listeners@[lid as int].pending@.len() > 0
                    &&& ep.conn == old(self).net.listeners@[lid as int].pending@[0]
                    &&& ep.side == crate::net::Side::Server
                    &&& (ep.conn as int) < old(self).net.conns@.len()
                    &&& peer == old(self).net.conns@[ep.conn as int].client_addr
                    &&& final(self).net.listeners@[lid as int].pending@ == old(
                        self).net.listeners@[lid as int].pending@.subrange(
                        1,
                        old(self).net.listeners@[lid as int].pending@.len() as int,
                    )
                },
            },
    {
        self.net.accept(lid, task)
    }

    /// Write `data` to one endpoint: all-or-nothing delivery into the peer's
    /// read buffer, in order, waking a peer blocked in `read`. Fails with
    /// `ConnectionReset` after a fault-injected disconnect and with
    /// `BrokenPipe` after either side closed.
    pub fn write(&mut self, ep: Endpoint, data: &[u8]) -> (r: Result<usize, IoErrorKind>)
        requires
            old(self).wf(),
            (ep.conn as int) < old(self).net.conns@.len(),
        ensures
            final(self).wf(),
            final(self).clock == old(self).clock,
            final(self).timers == old(self).timers,
            final(self).injector == old(self).injector,
            final(self).next_port == old(self).next_port,
            final(self).net.listeners@ == old(self).net.listeners@,
            final(self).net.conns@.len() == old(self).net.conns@.len(),
            forall|i: int|
                0 <= i < old(self).net.conns@.len() && i != ep.conn as int ==> final(
                    self).net.conns@[i] == old(self).net.conns@[i],
            match r {
                Result::Err(e) => {
                    &&& final(self).net == old(self).net
                    &&& final(self).sched == old(self).sched
                    &&& (e == IoErrorKind::ConnectionReset || e == IoErrorKind::BrokenPipe)
                    &&& (e == IoErrorKind::ConnectionReset <==> old(
                        self).net.conns@[ep.conn as int].reset)
                    &&& (e == IoErrorKind::BrokenPipe ==> !old(self).net.conns@[ep.conn as int].reset
                        && (old(self).net.conns@[ep.conn as int].client_closed || old(
                            self).net.conns@[ep.conn as int].server_closed))
                },
                Result::Ok(n) => {
                    &&& !old(self).net.conns@[ep.conn as int].reset
                    &&& !old(self).net.conns@[ep.conn as int].client_closed
                    &&& !old(self).net.conns@[ep.conn as int].server_closed
                    &&& n == data@.len()
                    &&& final(self).net.conns@[ep.conn as int].outbuf(ep.side) == old(
                        self).net.conns@[ep.conn as int].outbuf(ep.side) + data@
                    &&& final(self).net.conns@[ep.conn as int].inbuf(ep.side) == old(
                        self).net.conns@[ep.conn as int].inbuf(ep.side)
                    &&& woke_waiter(
                        old(self).sched,
                        final(self).sched,
                        old(self).net.conns@[ep.conn as int].read_waiter(
                            crate::net::Conn::peer(ep.side),
                        ),
                    )
                },
            },
    {
        let out = self.net.write(ep, data);
        match out.result {
            Result::Err(e) => Result::Err(e),
            Result::Ok(n) => {
                match out.wake {
                    Option::None => {},
                    Option::Some(w) => {
                        self.sched.wake(w);
                    },
                }
                Result::Ok(n)
            },
        }
    }

    /// Read the buffered bytes for one endpoint in write order, observe end
    /// of stream or a reset, or record `task` as the read waiter and tell
    /// the caller to suspend it.
    pub fn read(&mut self, ep: Endpoint, task: usize) -> (r: ReadOutcome)
        requires
            old(self).wf(),
            (ep.conn as int) < old(self).net.conns@.len(),
            (task as int) < old(self).sched.states@.len(),
        ensures
            final(self).wf(),
            final(self).clock == old(self).clock,
            final(self).timers == old(self).timers,
            final(self).sched == old(self).sched,
            final(self).injector == old(self).injector,
            final(self).next_port == old(self).next_port,
            final(self).net.listeners@ == old(self).net.listeners@,
            final(self).net.conns@.len() == old(self).net.conns@.len(),
            forall|i: int|
                0 <= i < old(self).net.conns@.len() && i != ep.conn as int ==> final(
                    self).net.conns@[i] == old(self).net.conns@[i],
            match r {
                ReadOutcome::Reset => old(self).net.conns@[ep.conn as int].reset && final(self).net
                    == old(self).net,
                ReadOutcome::Data(data) => {
                    &&& !old(self).net.conns@[ep.conn as int].reset
                    &&& old(self).net.conns@[ep.conn as int].inbuf(ep.side).len() > 0
                    &&& data@ == old(self).net.conns@[ep.conn as int].inbuf(ep.side)
                    &&& final(self).net.conns@[ep.conn as int].inbuf(ep.side).len() == 0
                    &&& final(self).net.conns@[ep.conn as int].outbuf(ep.side) == old(
                        self).net.conns@[ep.conn as int].outbuf(ep.side)
                },
                ReadOutcome::Closed => {
                    &&& !old(self).net.conns@[ep.conn as int].reset
                    &&& old(self).net.conns@[ep.conn as int].inbuf(ep.side).len() == 0
                    &&& (old(self).net.conns@[ep.conn as int].client_closed || old(
                        self).net.conns@[ep.conn as int].server_closed)
                    &&& final(self).net == old(self).net
                },
                ReadOutcome::WouldBlock => {
                    &&& !old(self).net.conns@[ep.conn as int].reset
                    &&& old(self).net.conns@[ep.conn as int].inbuf(ep.side).len() == 0
                    &&& !old(self).net.conns@[ep.conn as int].client_closed
                    &&& !old(self).net.conns@[ep.conn as int].server_closed
                    &&& final(self).net.conns@[ep.conn as int].read_waiter(ep.side)
                        == Option::Some(task)
                },
            },
    {
        self.net.read(ep, task)
    }

    /// Close one side of a connection; a peer blocked in `read` is woken and
    /// observes end of stream.
    pub fn close(&mut self, ep: Endpoint)
        requires
            old(self).wf(),
            (ep.conn as int) < old(self).net.conns@.len(),
        ensures
            final(self).wf(),
            final(self).clock == old(self).clock,
            final(self).timers == old(self).timers,
            final(self).injector == old(self).injector,
            final(self).next_port == old(self).next_port,
            final(self).net.listeners@ == old(self).net.listeners@,
            final(self).net.conns@.len() == old(self).net.conns@.len(),
            forall|i: int|
                0 <= i < old(self).net.conns@.len() && i != ep.conn as int ==> final(
                    self).net.conns@[i] == old(self).net.conns@[i],
            final(self).net.conns@[ep.conn as int].closed(ep.side),
            final(self).net.conns@[ep.conn as int].closed(crate::net::Conn::peer(ep.side)) == old(
                self).net.conns@[ep.conn as int].closed(crate::net::Conn::peer(ep.side)),
            final(self).net.conns@[ep.conn as int].reset == old(
                self).net.conns@[ep.conn as int].reset,
            woke_waiter(
                old(self).sched,
                final(self).sched,
                old(self).net.conns@[ep.conn as int].read_waiter(crate::net::Conn::peer(ep.side)),
            ),
    {
        let wake = self.net.close(ep);
        match wake {
            Option::None => {},
            Option::Some(w) => {
                self.sched.wake(w);
            },
        }
    }

    /// Deactivate a listener; later connects to its address are refused. The
    /// pending connections it never accepted are handed back so the driver
    /// can close their server ends.
    pub fn close_listener(&mut self, lid: usize) -> (orphans: Vec<usize>)
        requires
            old(self).wf(),
            (lid as int) < old(self).net.listeners@.len(),
        ensures
            final(self).wf(),
            final(self).clock == old(self).clock,
            final(self).timers == old(self).timers,
            final(self).sched == old(self).sched,
            final(self).injector == old(self).injector,
            final(self).next_port == old(self).next_port,
            final(self).net.conns@ == old(self).net.conns@,
            forall|i: int|
                0 <= i < old(self).net.listeners@.len() && i != lid as int ==> final(
                    self).net.listeners@[i] == old(self).net.listeners@[i],
            !final(self).net.listeners@[lid as int].active,
            orphans@ == old(self).net.listeners@[lid as int].pending@,
            forall|k: int|
                0 <= k < orphans@.len() ==> (#[trigger] orphans@[k]) < old(self).net.conns@.len(),
    {
        self.net.close_listener(lid)
    }

    /// Draw the fault decision for the next observed stream operation.
    pub fn next_fault_decision(&mut self) -> (d: FaultDecision)
        requires
            old(self).wf(),
            old(self).injector.rng.draws + 2 <= u64::MAX,
        ensures
            final(self).wf(),
            final(self).clock == old(self).clock,
            final(self).timers == old(self).timers,
            final(self).sched == old(self).sched,
            final(self).net == old(self).net,
            final(self).next_port == old(self).next_port,
            final(self).injector.rng.seed == old(self).injector.rng.seed,
            final(self).injector.decisions_made() == old(self).injector.decisions_made() + 1,
            d == decision_at(
                old(self).injector.rng.seed,
                old(self).injector.max_delay_nanos,
                old(self).injector.disconnect_per_mille,
                old(self).injector.decisions_made(),
            ),
            d.extra_delay.nanos <= old(self).injector.max_delay_nanos,
    {
        self.injector.next_decision()
    }

    /// The connection a fault decision lands on: a deterministic function of
    /// the decision and the number of live connections — no extra draw, so
    /// the stream position stays in lockstep with the decision count.
    pub fn fault_target(&self, d: FaultDecision) -> (r: Option<usize>)
        ensures
            match r {
                Option::None => self.net.conns@.len() == 0,
                Option::Some(cid) => self.net.conns@.len() > 0 && cid == (d.extra_delay.nanos as int)
                    % (self.net.conns@.len() as int),
            },
    {
        let n = self.net.conns.len();
        if n == 0 {
            Option::None
        } else {
            Option::Some((d.extra_delay.nanos % (n as u64)) as usize)
        }
    }

    /// Fault injection: disconnect a connection. Both sides' blocked readers
    /// are woken and observe the reset; every later operation on the
    /// connection fails with `ConnectionReset`.
    pub fn disconnect_conn(&mut self, cid: usize)
        requires
            old(self).wf(),
            (cid as int) < old(self).net.conns@.len(),
        ensures
            final(self).wf(),
            final(self).clock == old(self).clock,
            final(self).timers == old(self).timers,
            final(self).injector == old(self).injector,
            final(self).next_port == old(self).next_port,
            final(self).net.listeners@ == old(self).net.listeners@,
            final(self).net.conns@.len() == old(self).net.conns@.len(),
            forall|i: int|
                0 <= i < old(self).net.conns@.len() && i != cid as int ==> final(self).net.conns@[i]
                    == old(self).net.conns@[i],
            final(self).net.conns@[cid as int].reset,
            exists|mid: Scheduler|
                woke_waiter(
                    old(self).sched,
                    mid,
                    old(self).net.conns@[cid as int].client_read_waiter,
                ) && woke_waiter(
                    mid,
                    final(self).sched,
                    old(self).net.conns@[cid as int].server_read_waiter,
                ),
    {
        let wakes = self.net.disconnect(cid);
        let ghost s0 = self.sched;
        match wakes.0 {
            Option::None => {},
            Option::Some(w) => {
                self.sched.wake(w);
            },
        }
        let ghost s1 = self.sched;
        proof {
            assert(woke_waiter(s0, s1, old(self).net.conns@[cid as int].client_read_waiter));
        }
        match wakes.1 {
            Option::None => {},
            Option::Some(w) => {
                proof {
                    assert(waiter_ok(
                        old(self).net.conns@[cid as int].server_read_waiter,
                        old(self).sched.states@.len() as int,
                    ));
                }
                self.sched.wake(w);
            },
        }
        proof {
            assert(woke_waiter(s1, self.sched, old(self).net.conns@[cid as int].server_read_waiter));
        }
    }

    /// Resolve the race inside `timeout(op, d)`: the inner operation's value
    /// wins only when it completed strictly before the deadline; at or after
    /// the deadline the result is a timeout error and the inner operation is
    /// abandoned.
    pub fn timeout_race(inner_done_at: Instant, deadline: Instant) -> (r: RaceWinner)
        ensures
            (r == RaceWinner::Inner) == (inner_done_at.nanos < deadline.nanos),
            (r == RaceWinner::Timer) == (deadline.nanos <= inner_done_at.nanos),
    {
        if inner_done_at.nanos < deadline.nanos {
            RaceWinner::Inner
        } else {
            RaceWinner::Timer
        }
    }
}

/// No spurious wakeups: in a well-formed runtime every pending timer's
/// deadline lies strictly in the future, so a task awaiting deadline `D` is
/// still waiting whenever `now() < D` — and `step` only fires timers whose
/// deadline has been reached, as its contract states.
pub proof fn lemma_no_spurious_wakeup(rt: DeterministicRuntime)
    requires
        rt.wf(),
    ensures
        forall|i: int|
            0 <= i < rt.timers.entries@.len() ==> rt.clock.current.nanos < (
            #[trigger] rt.timers.entries@[i]).deadline,
{
}

} // verus!
