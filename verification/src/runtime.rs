use vstd::prelude::*;
use std::collections::VecDeque;
use crate::executor::Executor;
use crate::executor::total_steps;
use crate::executor::drain_order;
use crate::executor::queue_after_step;
use crate::executor::completions_of_step;
use crate::task::Task;
use crate::task::Computation;
use crate::timer::TimerEntry;
use crate::timer::TimerWheel;
use crate::timer::expired_tasks;
use crate::timer::live_entries;

verus! {

/// Why a `spawn` can fail.
#[derive(Clone, Copy, PartialEq, Eq, Structural, Debug)]
pub enum SpawnError {
    /// The runtime's inbox has been torn down. A runtime owns the receiving
    /// end of its inbox for its whole lifetime, so no call on a live runtime
    /// ever returns this; it exists so callers handle admission failure
    /// explicitly instead of aborting.
    ChannelClosed,
}

/// The ready queue a tick at time `now` steps from: the tasks already
/// admitted, then the inbox messages in send order, then the tasks of the
/// timer entries whose deadline has been reached.
pub open spec fn admitted_queue(
    queue: Seq<Task>,
    inbox: Seq<Task>,
    timers: Seq<TimerEntry>,
    now: u64,
) -> Seq<Task> {
    queue + inbox + expired_tasks(timers, now)
}

/// How many times the task value `t` occurs in `q`.
pub open spec fn occurrences(q: Seq<Task>, t: Task) -> nat
    decreases q.len(),
{
    if q.len() == 0 {
        0
    } else {
        (if q[0] == t {
            1nat
        } else {
            0nat
        }) + occurrences(q.drop_first(), t)
    }
}

/// Occurrences add up over concatenation.
pub proof fn lemma_occurrences_add(a: Seq<Task>, b: Seq<Task>, t: Task)
    ensures
        occurrences(a + b, t) == occurrences(a, t) + occurrences(b, t),
    decreases a.len(),
{
    if a.len() == 0 {
        assert(a + b =~= b);
    } else {
        assert((a + b)[0] == a[0]);
        assert((a + b).drop_first() =~= a.drop_first() + b);
        lemma_occurrences_add(a.drop_first(), b, t);
    }
}

/// Each `spawn` admits its task exactly once: against any state of the ready
/// queue, the inbox and the timer wheel, appending the spawned task to the
/// inbox raises by exactly one the number of times it occurs in the queue the
/// next tick steps from — no loss, no duplication.
pub proof fn lemma_spawn_admits_exactly_once(
    queue: Seq<Task>,
    inbox: Seq<Task>,
    timers: Seq<TimerEntry>,
    t: Task,
    now: u64,
)
    ensures
        occurrences(admitted_queue(queue, inbox.push(t), timers, now), t) == occurrences(
            admitted_queue(queue, inbox, timers, now),
            t,
        ) + 1,
{
    let e = expired_tasks(timers, now);
    lemma_occurrences_add(queue + inbox.push(t), e, t);
    lemma_occurrences_add(queue, inbox.push(t), t);
    lemma_occurrences_add(queue + inbox, e, t);
    lemma_occurrences_add(queue, inbox, t);
    assert(inbox.push(t) =~= inbox + seq![t]);
    lemma_occurrences_add(inbox, seq![t], t);
    assert(seq![t].drop_first() =~= Seq::<Task>::empty());
    assert(occurrences(Seq::<Task>::empty(), t) == 0);
    assert(occurrences(seq![t], t) == 1);
}

/// A tick on a runtime whose ready queue, inbox and timer wheel are all empty
/// admits nothing: together with the tick's own contract this says such a
/// tick performs no computation step and leaves the runtime unchanged.
pub proof fn lemma_idle_tick(now: u64)
    ensures
        admitted_queue(
            Seq::<Task>::empty(),
            Seq::<Task>::empty(),
            Seq::<TimerEntry>::empty(),
            now,
        ) == Seq::<Task>::empty(),
        live_entries(Seq::<TimerEntry>::empty(), now) == Seq::<TimerEntry>::empty(),
{
    assert(expired_tasks(Seq::<TimerEntry>::empty(), now) =~= Seq::<Task>::empty());
    assert(admitted_queue(
        Seq::<Task>::empty(),
        Seq::<Task>::empty(),
        Seq::<TimerEntry>::empty(),
        now,
    ) =~= Seq::<Task>::empty());
    assert(live_entries(Seq::<TimerEntry>::empty(), now) =~= Seq::<TimerEntry>::empty());
}

/// A task deferred to `deadline` is admitted exactly when the deadline has
/// been reached: a tick at any earlier time steps from the same queue as if
/// the timer were absent and keeps its entry in the wheel, while a tick at or
/// past the deadline admits the task, after everything admitted ahead of it.
pub proof fn lemma_deferred_task_admission(
    queue: Seq<Task>,
    inbox: Seq<Task>,
    timers: Seq<TimerEntry>,
    task: Task,
    deadline: u64,
    now: u64,
)
    ensures
        now < deadline ==> admitted_queue(
            queue,
            inbox,
            timers.push(TimerEntry { deadline, task }),
            now,
        ) == admitted_queue(queue, inbox, timers, now) && live_entries(
            timers.push(TimerEntry { deadline, task }),
            now,
        ) == live_entries(timers, now).push(TimerEntry { deadline, task }),
        deadline <= now ==> admitted_queue(
            queue,
            inbox,
            timers.push(TimerEntry { deadline, task }),
            now,
        ) == admitted_queue(queue, inbox, timers, now).push(task) && live_entries(
            timers.push(TimerEntry { deadline, task }),
            now,
        ) == live_entries(timers, now),
{
    let e = TimerEntry { deadline, task };
    crate::timer::lemma_deferred_admission(timers, e, now);
    if now < deadline {
        assert(admitted_queue(queue, inbox, timers.push(e), now) =~= admitted_queue(
            queue,
            inbox,
            timers,
            now,
        ));
    } else {
        assert(admitted_queue(queue, inbox, timers.push(e), now) =~= admitted_queue(
            queue,
            inbox,
            timers,
            now,
        ).push(task));
    }
}

/// The public facade: combines an inbox (immediate admission), the timer
/// wheel (deferred admission) and the executor, and exposes a blocking drain
/// (`block_on`) and a non-blocking single tick (`run_non_blocking`).
///
/// Time is the caller's: `spawn_after` and `run_non_blocking` take the
/// current timestamp as a plain value, in whatever unit the caller measures
/// time, so the scheduling rules are independent of any clock source.
pub struct Runtime {
    /// Drives admitted tasks to completion in FIFO round-robin order.
    pub executor: Executor,
    /// Tasks submitted for immediate admission, in send order; drained into
    /// the ready queue by the next tick.
    pub inbox: VecDeque<Task>,
    /// Tasks awaiting their deadline.
    pub timer_wheel: TimerWheel,
}

impl Runtime {
    /// Creates a runtime with an empty inbox, an empty timer wheel and an
    /// idle executor.
    pub fn new() -> (rt: Runtime)
        ensures
            rt.executor.task_queue@ == Seq::<Task>::empty(),
            rt.executor.completion_log@ == Seq::<u64>::empty(),
            rt.executor.steps_taken == 0,
            rt.inbox@ == Seq::<Task>::empty(),
            rt.timer_wheel.timers@ == Seq::<TimerEntry>::empty(),
    {
        Runtime {
            executor: Executor::new(),
            inbox: VecDeque::new(),
            timer_wheel: TimerWheel::new(),
        }
    }

    /// Wraps the computation into a task and sends it through the inbox for
    /// admission at the next tick. Succeeds on every call: a runtime owns the
    /// receiving end of its inbox, so the inbox cannot have been torn down
    /// while the runtime is alive.
    pub fn spawn(&mut self, computation: Computation) -> (r: Result<(), SpawnError>)
        ensures
            r == Result::<(), SpawnError>::Ok(()),
            final(self).inbox@ == old(self).inbox@.push(Task { computation }),
            final(self).executor == old(self).executor,
            final(self).timer_wheel.timers@ == old(self).timer_wheel.timers@,
    {
        let task = Task::new(computation);
        self.inbox.push_back(task);
        Ok(())
    }

    /// Wraps the computation into a task and stores it in the timer wheel
    /// with deadline `now + delay`; a tick at or past the deadline admits it
    /// into the ready queue.
    pub fn spawn_after(&mut self, computation: Computation, delay: u64, now: u64)
        requires
            now + delay <= u64::MAX,
        ensures
            final(self).timer_wheel.timers@ == old(self).timer_wheel.timers@.push(
                TimerEntry { deadline: (now + delay) as u64, task: Task { computation } },
            ),
            final(self).executor == old(self).executor,
            final(self).inbox@ == old(self).inbox@,
    {
        let task = Task::new(computation);
        let deadline = now + delay;
        self.timer_wheel.schedule(task, deadline);
    }

    /// Moves every inbox message into the ready queue, in send order.
    fn drain_inbox(&mut self)
        ensures
            final(self).executor.task_queue@ == old(self).executor.task_queue@ + old(self).inbox@,
            final(self).inbox@ == Seq::<Task>::empty(),
            final(self).executor.completion_log@ == old(self).executor.completion_log@,
            final(self).executor.steps_taken == old(self).executor.steps_taken,
            final(self).timer_wheel.timers@ == old(self).timer_wheel.timers@,
    {
        let ghost q0 = self.executor.task_queue@;
        let ghost inbox0 = self.inbox@;
        while self.inbox.len() > 0
            invariant
                self.executor.task_queue@ + self.inbox@ == q0 + inbox0,
                self.executor.completion_log@ == old(self).executor.completion_log@,
                self.executor.steps_taken == old(self).executor.steps_taken,
                self.timer_wheel.timers@ == old(self).timer_wheel.timers@,
            decreases self.inbox@.len(),
        {
            let ghost qpre = self.executor.task_queue@;
            let ghost inboxpre = self.inbox@;
            let task = self.inbox.pop_front().unwrap();
            self.executor.enqueue(task);
            proof {
                assert(self.executor.task_queue@ + self.inbox@ =~= qpre + inboxpre);
            }
        }
        proof {
            assert(self.executor.task_queue@ =~= self.executor.task_queue@ + self.inbox@);
        }
    }

    /// One non-blocking tick at time `now`: drains all currently-available
    /// inbox messages into the ready queue, promotes all expired timers into
    /// the ready queue, then performs exactly one scheduling step. On a
    /// runtime whose inbox, timer wheel and ready queue are all empty, it
    /// performs no step and changes nothing.
    pub fn run_non_blocking(&mut self, now: u64)
        requires
            old(self).executor.steps_taken < u64::MAX,
        ensures
            final(self).inbox@ == Seq::<Task>::empty(),
            final(self).timer_wheel.timers@ == live_entries(old(self).timer_wheel.timers@, now),
            final(self).executor.task_queue@ == queue_after_step(
                admitted_queue(
                    old(self).executor.task_queue@,
                    old(self).inbox@,
                    old(self).timer_wheel.timers@,
                    now,
                ),
            ),
            final(self).executor.completion_log@ == old(self).executor.completion_log@
                + completions_of_step(
                admitted_queue(
                    old(self).executor.task_queue@,
                    old(self).inbox@,
                    old(self).timer_wheel.timers@,
                    now,
                ),
            ),
            final(self).executor.steps_taken == old(self).executor.steps_taken + (
            if admitted_queue(
                old(self).executor.task_queue@,
                old(self).inbox@,
                old(self).timer_wheel.timers@,
                now,
            ).len() > 0 {
                1int
            } else {
                0int
            }),
    {
        let ghost q0 = self.executor.task_queue@;
        let ghost inbox0 = self.inbox@;
        let ghost timers0 = self.timer_wheel.timers@;
        self.drain_inbox();
        let expired = self.timer_wheel.promote_expired(now);
        let ghost qmid = self.executor.task_queue@;
        let n: usize = expired.len();
        let mut i: usize = 0;
        while i < n
            invariant
                i <= n,
                n == expired@.len(),
                self.inbox@ == Seq::<Task>::empty(),
                self.executor.task_queue@ == qmid + expired@.take(i as int),
                self.executor.completion_log@ == old(self).executor.completion_log@,
                self.executor.steps_taken == old(self).executor.steps_taken,
                self.timer_wheel.timers@ == live_entries(timers0, now),
            decreases n - i,
        {
            self.executor.enqueue(expired[i]);
            proof {
                assert(expired@.take(i + 1) =~= expired@.take(i as int).push(expired@[i as int]));
            }
            i = i + 1;
        }
        proof {
            assert(expired@.take(n as int) =~= expired@);
            assert(self.executor.task_queue@ =~= admitted_queue(q0, inbox0, timers0, now));
        }
        self.executor.run_one_tick();
    }

    /// Blocking convenience mode: admits the computation, then drains the
    /// ready queue to completion — equivalent to `spawn` followed by a full
    /// executor drain. Returns only once every admitted task, the spawned
    /// computation included, has completed; timers are not promoted.
    pub fn block_on(&mut self, computation: Computation)
        requires
            old(self).executor.steps_taken + total_steps(
                old(self).executor.task_queue@ + old(self).inbox@ + seq![Task { computation }],
            ) <= u64::MAX,
        ensures
            final(self).executor.task_queue@.len() == 0,
            final(self).inbox@ == Seq::<Task>::empty(),
            final(self).timer_wheel.timers@ == old(self).timer_wheel.timers@,
            final(self).executor.completion_log@ == old(self).executor.completion_log@
                + drain_order(
                old(self).executor.task_queue@ + old(self).inbox@ + seq![Task { computation }],
            ),
            final(self).executor.steps_taken == old(self).executor.steps_taken + total_steps(
                old(self).executor.task_queue@ + old(self).inbox@ + seq![Task { computation }],
            ),
    {
        let ghost q0 = self.executor.task_queue@;
        let ghost inbox0 = self.inbox@;
        let _ = self.spawn(computation);
        self.drain_inbox();
        proof {
            assert(self.executor.task_queue@ =~= q0 + inbox0 + seq![Task { computation }]);
        }
        self.executor.run();
    }
}

} // verus!
