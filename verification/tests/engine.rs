//! Scheduler, virtual clock and timer queue behaviour, driven through the
//! runtime's public transition methods.

use simulation::clock::{Duration, Instant};
use simulation::rt::{DeterministicRuntime, RaceWinner, SchedStep};
use simulation::sched::TaskState;

fn secs(s: u32) -> Duration {
    Duration::from_secs(s)
}

/// Two tasks delaying 10 s and 30 s from the same instant complete in that
/// order, at exactly those instants, every run.
#[test]
fn ordering_two_delays() {
    let mut rt = DeterministicRuntime::new();
    let t1 = rt.spawn();
    let t2 = rt.spawn();

    // First task runs, registers its 10 s delay, suspends.
    assert_eq!(rt.step(), SchedStep::RunTask(t1));
    let (d1, reg1) = rt.delay_from(t1, secs(10));
    assert!(reg1.is_some());
    assert_eq!(d1, Instant::from_nanos(10_000_000_000));
    rt.mark_suspended(t1);

    // Second task runs, registers its 30 s delay, suspends.
    assert_eq!(rt.step(), SchedStep::RunTask(t2));
    let (d2, reg2) = rt.delay_from(t2, secs(30));
    assert!(reg2.is_some());
    rt.mark_suspended(t2);

    // Nobody is runnable: the clock jumps exactly to the 10 s deadline.
    assert_eq!(rt.step(), SchedStep::AdvancedTo(d1));
    assert_eq!(rt.now(), Instant::from_nanos(10_000_000_000));
    // The 30 s waiter was not touched: no spurious wakeup.
    assert_eq!(rt.sched.state_of(t2), TaskState::Suspended);

    // The 10 s task completes at virtual 10 s.
    assert_eq!(rt.step(), SchedStep::RunTask(t1));
    let completed_at1 = rt.now();
    rt.mark_completed(t1);

    // The clock jumps exactly to the 30 s deadline next.
    assert_eq!(rt.step(), SchedStep::AdvancedTo(d2));
    assert_eq!(rt.step(), SchedStep::RunTask(t2));
    let completed_at2 = rt.now();
    rt.mark_completed(t2);

    assert!(completed_at1.lt(completed_at2));
    assert_eq!(completed_at1, Instant::from_nanos(10_000_000_000));
    assert_eq!(completed_at2, Instant::from_nanos(30_000_000_000));

    // Everything is done: the runtime reports no progress possible.
    assert_eq!(rt.step(), SchedStep::NoProgress);
}

/// The clock never runs backwards and only moves when the scheduler is idle.
#[test]
fn clock_monotone_and_idle_only() {
    let mut rt = DeterministicRuntime::new();
    let t1 = rt.spawn();
    let t2 = rt.spawn();
    assert_eq!(rt.now(), Instant::from_nanos(0));

    assert_eq!(rt.step(), SchedStep::RunTask(t1));
    let (_, _) = rt.delay_from(t1, secs(5));
    rt.mark_suspended(t1);
    // A runnable task remains: stepping runs it without moving the clock.
    assert_eq!(rt.step(), SchedStep::RunTask(t2));
    assert_eq!(rt.now(), Instant::from_nanos(0));
    rt.mark_completed(t2);

    let mut last = rt.now();
    loop {
        let s = rt.step();
        let now = rt.now();
        assert!(last.le(now));
        last = now;
        match s {
            SchedStep::NoProgress => break,
            SchedStep::RunTask(t) => rt.mark_completed(t),
            SchedStep::AdvancedTo(_) => {}
        }
    }
    assert_eq!(rt.now(), Instant::from_nanos(5_000_000_000));
}

/// Timers with equal deadlines fire in registration order.
#[test]
fn equal_deadlines_fire_in_registration_order() {
    let mut rt = DeterministicRuntime::new();
    let t1 = rt.spawn();
    let t2 = rt.spawn();

    assert_eq!(rt.step(), SchedStep::RunTask(t1));
    rt.delay(t1, Instant::from_nanos(1_000));
    rt.mark_suspended(t1);
    assert_eq!(rt.step(), SchedStep::RunTask(t2));
    rt.delay(t2, Instant::from_nanos(1_000));
    rt.mark_suspended(t2);

    assert_eq!(rt.step(), SchedStep::AdvancedTo(Instant::from_nanos(1_000)));
    // Both woke; the one registered first runs first.
    assert_eq!(rt.step(), SchedStep::RunTask(t1));
    rt.mark_completed(t1);
    assert_eq!(rt.step(), SchedStep::RunTask(t2));
    rt.mark_completed(t2);
}

/// A delay whose deadline has already passed registers nothing: the caller
/// simply keeps running.
#[test]
fn past_deadline_needs_no_timer() {
    let mut rt = DeterministicRuntime::new();
    let t1 = rt.spawn();
    assert_eq!(rt.step(), SchedStep::RunTask(t1));
    let reg = rt.delay(t1, Instant::from_nanos(0));
    assert!(reg.is_none());
    rt.mark_completed(t1);
    assert_eq!(rt.step(), SchedStep::NoProgress);
}

/// Cancelling a pending timer removes it; a stuck run is reported as
/// `NoProgress`, not a hang.
#[test]
fn cancelled_timer_never_fires() {
    let mut rt = DeterministicRuntime::new();
    let t1 = rt.spawn();
    assert_eq!(rt.step(), SchedStep::RunTask(t1));
    let reg = rt.delay_from(t1, secs(10)).1.unwrap();
    rt.mark_completed(t1);
    assert!(rt.cancel_timer(reg));
    assert!(!rt.cancel_timer(reg));
    assert_eq!(rt.step(), SchedStep::NoProgress);
}

/// An empty runtime is immediately stuck.
#[test]
fn empty_runtime_reports_no_progress() {
    let mut rt = DeterministicRuntime::new();
    assert_eq!(rt.step(), SchedStep::NoProgress);
}

/// The timeout race: the inner operation wins only strictly before the
/// deadline; ties go to the timer.
#[test]
fn timeout_race_resolution() {
    let t1 = Instant::from_nanos(5);
    let t2 = Instant::from_nanos(7);
    assert_eq!(DeterministicRuntime::timeout_race(t1, t2), RaceWinner::Inner);
    assert_eq!(DeterministicRuntime::timeout_race(t2, t1), RaceWinner::Timer);
    assert_eq!(DeterministicRuntime::timeout_race(t1, t1), RaceWinner::Timer);
}

/// Saturating virtual-time arithmetic: a delay past the end of representable
/// time pins to the maximum instead of wrapping.
#[test]
fn instant_addition_saturates() {
    let late = Instant::from_nanos(u64::MAX - 5);
    let sum = late.add_duration(Duration::from_nanos(100));
    assert_eq!(sum, Instant::from_nanos(u64::MAX));
    let exact = Instant::from_nanos(40).add_duration(Duration::from_nanos(2));
    assert_eq!(exact, Instant::from_nanos(42));
}

/// Cancelling one timer of several leaves the others firing in order.
#[test]
fn cancel_leaves_other_timers_untouched() {
    let mut rt = DeterministicRuntime::new();
    let t1 = rt.spawn();
    let t2 = rt.spawn();
    assert_eq!(rt.step(), SchedStep::RunTask(t1));
    let early = rt.delay(t1, Instant::from_nanos(100)).unwrap();
    rt.mark_suspended(t1);
    assert_eq!(rt.step(), SchedStep::RunTask(t2));
    rt.delay(t2, Instant::from_nanos(200)).unwrap();
    rt.mark_suspended(t2);

    assert!(rt.cancel_timer(early));
    // The first deadline is gone: the clock jumps straight to the second.
    assert_eq!(rt.step(), SchedStep::AdvancedTo(Instant::from_nanos(200)));
    assert_eq!(rt.step(), SchedStep::RunTask(t2));
    rt.mark_completed(t2);
    // The cancelled waiter is never woken.
    assert_eq!(rt.sched.state_of(t1), TaskState::Suspended);
}
