//! The cooperative scheduler's task table and ready queue.
//!
//! Exactly one task executes at a time. A task is `Runnable` while it waits in
//! the first-in-first-out ready queue, `Running` while the driver resumes it,
//! `Suspended` while it awaits an event (a timer, network readiness, another
//! task's completion), and `Completed` once it has finished. The driver that
//! actually polls the task bodies reports each outcome back through
//! `mark_suspended`, `mark_completed` and `wake`; every scheduling
//! decision — which task runs next — is taken here, deterministically.

use vstd::prelude::*;

verus! {

#[derive(Clone, Copy, Debug, PartialEq, Eq, Structural)]
pub enum TaskState {
    Runnable,
    Running,
    Suspended,
    Completed,
}

/// `id` occurs somewhere in the queue `r`.
pub open spec fn in_queue(r: Seq<usize>, id: usize) -> bool {
    exists|k: int| 0 <= k < r.len() && r[k] == id
}

/// Task bookkeeping: one state per spawned task, and the queue of tasks that
/// can run now, in the order they became runnable.
pub struct Scheduler {
    pub states: Vec<TaskState>,
    pub ready: Vec<usize>,
}

impl Scheduler {
    /// The ready queue holds exactly the runnable task ids, each once, in
    /// first-in-first-out order.
    pub open spec fn wf(self) -> bool {
        &&& forall|k: int|
            0 <= k < self.ready@.len() ==> (#[trigger] self.ready@[k]) < self.states@.len()
                && self.states@[self.ready@[k] as int] == TaskState::Runnable
        &&& forall|i: int, j: int|
            0 <= i < j < self.ready@.len() ==> self.ready@[i] != self.ready@[j]
        &&& forall|t: usize|
            (t as int) < self.states@.len() && self.states@[t as int] == TaskState::Runnable
                ==> in_queue(self.ready@, t)
    }

    pub fn new() -> (r: Scheduler)
        ensures
            r.wf(),
            r.states@.len() == 0,
            r.ready@.len() == 0,
    {
        Scheduler { states: Vec::new(), ready: Vec::new() }
    }

    pub fn task_count(&self) -> (r: usize)
        ensures
            r == self.states@.len(),
    {
        self.states.len()
    }

    /// No task can run right now.
    pub fn is_idle(&self) -> (r: bool)
        ensures
            r == (self.ready@.len() == 0),
    {
        self.ready.len() == 0
    }

    /// Enqueue a new task as runnable; returns its id. New tasks join at the
    /// back of the ready queue, so spawn order is execution order among tasks
    /// that became runnable together.
    pub fn spawn(&mut self) -> (id: usize)
        requires
            old(self).wf(),
            old(self).states@.len() < usize::MAX,
        ensures
            final(self).wf(),
            id == old(self).states@.len(),
            final(self).states@ == old(self).states@.push(TaskState::Runnable),
            final(self).ready@ == old(self).ready@.push(id),
    {
        let id = self.states.len();
        self.states.push(TaskState::Runnable);
        self.ready.push(id);
        proof {
            assert forall|t: usize|
                (t as int) < self.states@.len() && self.states@[t as int] == TaskState::Runnable
                implies in_queue(self.ready@, t) by {
                if (t as int) < old(self).states@.len() {
                    assert(in_queue(old(self).ready@, t));
                    let k = choose|k: int|
                        0 <= k < old(self).ready@.len() && old(self).ready@[k] == t;
                    assert(self.ready@[k] == t);
                } else {
                    assert(self.ready@[self.ready@.len() - 1] == id);
                }
            }
        }
        id
    }

    /// Dequeue the task that runs next: the front of the ready queue. It is
    /// handed to the driver in state `Running`; the driver must report the
    /// poll's outcome before asking for another task.
    pub fn take_next(&mut self) -> (r: Option<usize>)
        requires
            old(self).wf(),
        ensures
            final(self).wf(),
            match r {
                Option::None => old(self).ready@.len() == 0 && *final(self) == *old(self),
                Option::Some(id) => old(self).ready@.len() > 0 && id == old(self).ready@[0] && (id
                    as int) < old(self).states@.len() && final(self).ready@ == old(
                    self).ready@.subrange(1, old(self).ready@.len() as int) && final(self).states@
                    == old(self).states@.update(id as int, TaskState::Running),
            },
    {
        if self.ready.len() == 0 {
            return Option::None;
        }
        let id = self.ready.remove(0);
        self.states.set(id, TaskState::Running);
        proof {
            let r0 = old(self).ready@;
            r0.remove_ensures(0);
            assert(self.ready@ == r0.remove(0));
            assert(self.ready@ =~= r0.subrange(1, r0.len() as int));
            assert forall|k: int|
                0 <= k < self.ready@.len() implies (#[trigger] self.ready@[k])
                    < self.states@.len() && self.states@[self.ready@[k] as int]
                    == TaskState::Runnable by {
                assert(self.ready@[k] == r0[k + 1]);
                assert(r0[k + 1] != r0[0]);
            }
            assert forall|t: usize|
                (t as int) < self.states@.len() && self.states@[t as int] == TaskState::Runnable
                implies in_queue(self.ready@, t) by {
                assert(t != id);
                assert(old(self).states@[t as int] == TaskState::Runnable);
                let k = choose|k: int| 0 <= k < r0.len() && r0[k] == t;
                assert(r0[0] == id);
                assert(k != 0);
                assert(self.ready@[k - 1] == r0[k]);
            }
        }
        Option::Some(id)
    }

    /// The driver reports: the running task suspended awaiting an event.
    pub fn mark_suspended(&mut self, id: usize)
        requires
            old(self).wf(),
            (id as int) < old(self).states@.len(),
            old(self).states@[id as int] == TaskState::Running,
        ensures
            final(self).wf(),
            final(self).states@ == old(self).states@.update(id as int, TaskState::Suspended),
            final(self).ready@ == old(self).ready@,
    {
        self.states.set(id, TaskState::Suspended);
        proof {
            self.lemma_nonrunnable_update_keeps_wf(*old(self), id, TaskState::Suspended);
        }
    }

    /// The driver reports: the running task ran to completion.
    pub fn mark_completed(&mut self, id: usize)
        requires
            old(self).wf(),
            (id as int) < old(self).states@.len(),
            old(self).states@[id as int] == TaskState::Running,
        ensures
            final(self).wf(),
            final(self).states@ == old(self).states@.update(id as int, TaskState::Completed),
            final(self).ready@ == old(self).ready@,
    {
        self.states.set(id, TaskState::Completed);
        proof {
            self.lemma_nonrunnable_update_keeps_wf(*old(self), id, TaskState::Completed);
        }
    }

    /// An event owner (timer queue or connection registry) signals `id`: a
    /// suspended task becomes runnable and joins the back of the ready queue.
    /// Waking a task that is not suspended changes nothing — a task is never
    /// enqueued twice.
    pub fn wake(&mut self, id: usize) -> (woke: bool)
        requires
            old(self).wf(),
            (id as int) < old(self).states@.len(),
        ensures
            final(self).wf(),
            woke == (old(self).states@[id as int] == TaskState::Suspended),
            woke ==> final(self).states@ == old(self).states@.update(id as int, TaskState::Runnable)
                && final(self).ready@ == old(self).ready@.push(id),
            !woke ==> *final(self) == *old(self),
    {
        let is_suspended = match self.states[id] {
            TaskState::Suspended => true,
            _ => false,
        };
        if !is_suspended {
            return false;
        }
        self.states.set(id, TaskState::Runnable);
        self.ready.push(id);
        proof {
            let r0 = old(self).ready@;
            assert forall|k: int|
                0 <= k < self.ready@.len() implies (#[trigger] self.ready@[k])
                    < self.states@.len() && self.states@[self.ready@[k] as int]
                    == TaskState::Runnable by {
                if k < r0.len() {
                    assert(self.ready@[k] == r0[k]);
                } else {
                    assert(self.ready@[k] == id);
                }
            }
            assert forall|i: int, j: int| 0 <= i < j < self.ready@.len() implies self.ready@[i]
                != self.ready@[j] by {
                if j == r0.len() {
                    assert(old(self).states@[r0[i] as int] == TaskState::Runnable);
                }
            }
            assert forall|t: usize|
                (t as int) < self.states@.len() && self.states@[t as int] == TaskState::Runnable
                implies in_queue(self.ready@, t) by {
                if t == id {
                    assert(self.ready@[self.ready@.len() - 1] == id);
                } else {
                    let k = choose|k: int| 0 <= k < r0.len() && r0[k] == t;
                    assert(self.ready@[k] == t);
                }
            }
        }
        true
    }

    /// The state of one task, for drivers and diagnostics.
    pub fn state_of(&self, id: usize) -> (r: TaskState)
        requires
            (id as int) < self.states@.len(),
        ensures
            r == self.states@[id as int],
    {
        self.states[id]
    }

    /// Updating a task to a non-runnable state keeps the scheduler well
    /// formed, provided the task is not in the ready queue (it is `Running`).
    proof fn lemma_nonrunnable_update_keeps_wf(self, pre: Scheduler, id: usize, st: TaskState)
        requires
            pre.wf(),
            (id as int) < pre.states@.len(),
            pre.states@[id as int] == TaskState::Running,
            st != TaskState::Runnable,
            self.states@ == pre.states@.update(id as int, st),
            self.ready@ == pre.ready@,
        ensures
            self.wf(),
    {
        assert forall|t: usize|
            (t as int) < self.states@.len() && self.states@[t as int] == TaskState::Runnable
            implies in_queue(self.ready@, t) by {
            assert(pre.states@[t as int] == TaskState::Runnable);
        }
    }
}

} // verus!
