use vstd::prelude::*;

verus! {

/// A wake handle bound to the task currently being stepped.
///
/// The executor constructs a fresh `TaskWaker` for each step of a task and
/// hands it to the task's computation. Calling `wake` records that the bound
/// task may make further progress; after the step returns, the executor reads
/// the recorded signal and re-admits the task to the tail of the ready queue
/// if and only if the signal was raised. The executor's exclusive ownership of
/// the ready queue replaces the reference-counted sharing a preemptive system
/// would need: the wake signal is applied to exactly the task it was created
/// for, so a task can enter the ready queue at most once per step.
#[derive(Clone, Copy, PartialEq, Eq, Structural)]
pub struct TaskWaker {
    /// Whether the bound task has signalled readiness to make progress.
    pub notified: bool,
}

impl TaskWaker {
    /// Creates a wake handle with no readiness signal recorded yet.
    pub fn new() -> (w: TaskWaker)
        ensures
            !w.notified,
    {
        TaskWaker { notified: false }
    }

    /// Signals that the bound task may now make progress.
    pub fn wake(&mut self)
        ensures
            final(self).notified,
    {
        self.notified = true;
    }

    /// Reports whether the readiness signal has been raised.
    pub fn is_notified(&self) -> (r: bool)
        ensures
            r == self.notified,
    {
        self.notified
    }
}

} // verus!
