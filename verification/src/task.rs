use vstd::prelude::*;
use crate::waker::TaskWaker;

verus! {

/// The outcome of driving a computation forward one unit.
#[derive(Clone, Copy, PartialEq, Eq, Structural, Debug)]
pub enum Step {
    /// The computation cannot currently make further progress and will
    /// resume later, when its waker fires.
    Suspended,
    /// The computation has fully finished.
    Completed,
}

/// A suspendable computation, modelled as a tagged state machine.
///
/// The computation suspends voluntarily `remaining` more times before it
/// completes; each suspension signals its waker, so the scheduler re-admits
/// it immediately. On the step that completes it, the scheduler records
/// `effect` in its completion log, which is how tests and callers observe
/// that — and in what order — computations ran.
#[derive(Clone, Copy, PartialEq, Eq, Structural, Debug)]
pub struct Computation {
    /// How many more times this computation suspends before completing.
    pub remaining: u64,
    /// The value recorded in the completion log when this computation
    /// completes.
    pub effect: u64,
}

impl Computation {
    /// Creates a computation that suspends `remaining` times and then
    /// completes, recording `effect`.
    pub fn new(remaining: u64, effect: u64) -> (c: Computation)
        ensures
            c.remaining == remaining,
            c.effect == effect,
    {
        Computation { remaining, effect }
    }

    /// Drives the computation forward exactly one unit.
    ///
    /// Returns `Completed` if no suspensions remain; otherwise consumes one
    /// pending suspension, signals the waker (the computation is immediately
    /// ready to resume) and returns `Suspended`.
    pub fn step(&mut self, waker: &mut TaskWaker) -> (r: Step)
        ensures
            final(self).effect == old(self).effect,
            old(self).remaining == 0 ==> {
                &&& r == Step::Completed
                &&& *final(self) == *old(self)
                &&& *final(waker) == *old(waker)
            },
            old(self).remaining > 0 ==> {
                &&& r == Step::Suspended
                &&& final(self).remaining == old(self).remaining - 1
                &&& final(waker).notified
            },
    {
        if self.remaining == 0 {
            Step::Completed
        } else {
            self.remaining = self.remaining - 1;
            waker.wake();
            Step::Suspended
        }
    }
}

/// One suspendable computation plus its scheduling identity.
///
/// A task is created when a computation is submitted, mutated only by `poll`
/// calls — exclusive (`&mut`) access serializes stepping attempts — and
/// dropped by the scheduler the instant a `poll` call reports `Completed`.
#[derive(Clone, Copy, PartialEq, Eq, Structural, Debug)]
pub struct Task {
    /// The wrapped suspendable computation.
    pub computation: Computation,
}

impl Task {
    /// Wraps a computation into a schedulable task.
    pub fn new(computation: Computation) -> (t: Task)
        ensures
            t.computation == computation,
    {
        Task { computation }
    }

    /// Drives the wrapped computation forward exactly one unit.
    ///
    /// Returns `Completed` when the computation has fully finished and
    /// `Suspended` otherwise; a suspending computation signals `waker`.
    pub fn poll(&mut self, waker: &mut TaskWaker) -> (r: Step)
        ensures
            final(self).computation.effect == old(self).computation.effect,
            old(self).computation.remaining == 0 ==> {
                &&& r == Step::Completed
                &&& *final(self) == *old(self)
                &&& *final(waker) == *old(waker)
            },
            old(self).computation.remaining > 0 ==> {
                &&& r == Step::Suspended
                &&& *final(self) == after_suspend(*old(self))
                &&& final(waker).notified
            },
    {
        self.computation.step(waker)
    }
}

/// How many `poll` calls the scheduler spends on `t` before it completes:
/// one per pending suspension, plus the completing call.
pub open spec fn steps_to_finish(t: Task) -> nat {
    (t.computation.remaining + 1) as nat
}

/// The task `t` after one suspension: one fewer suspension pending, same
/// effect.
pub open spec fn after_suspend(t: Task) -> Task
    recommends
        t.computation.remaining > 0,
{
    Task {
        computation: Computation {
            remaining: (t.computation.remaining - 1) as u64,
            effect: t.computation.effect,
        },
    }
}

} // verus!
