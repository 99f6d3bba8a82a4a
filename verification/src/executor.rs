use vstd::prelude::*;
use std::collections::VecDeque;
use crate::task::Task;
use crate::task::Computation;
use crate::task::Step;
use crate::task::steps_to_finish;
use crate::task::after_suspend;
use crate::waker::TaskWaker;

verus! {

/// How many `poll` calls a drain spends on the queue `q` in total: each task
/// costs one call per pending suspension plus the completing call.
pub open spec fn total_steps(q: Seq<Task>) -> nat
    decreases q.len(),
{
    if q.len() == 0 {
        0
    } else {
        steps_to_finish(q[0]) + total_steps(q.drop_first())
    }
}

/// The ready queue after one scheduling step: the head is popped; if it
/// suspends (and thereby signals its waker) it rejoins at the tail with one
/// fewer suspension pending; if it completes it is dropped. An empty queue is
/// left unchanged.
pub open spec fn queue_after_step(q: Seq<Task>) -> Seq<Task> {
    if q.len() == 0 {
        q
    } else if q[0].computation.remaining == 0 {
        q.drop_first()
    } else {
        q.drop_first().push(after_suspend(q[0]))
    }
}

/// What one scheduling step appends to the completion log: the head task's
/// effect when the step completes it, and nothing otherwise.
pub open spec fn completions_of_step(q: Seq<Task>) -> Seq<u64> {
    if q.len() > 0 && q[0].computation.remaining == 0 {
        seq![q[0].computation.effect]
    } else {
        Seq::empty()
    }
}

/// The effects of the queued tasks in the order FIFO round-robin scheduling
/// completes them, starting from ready queue `q`.
pub open spec fn drain_order(q: Seq<Task>) -> Seq<u64>
    decreases total_steps(q),
{
    if q.len() == 0 {
        Seq::empty()
    } else {
        proof {
            lemma_step_spends_one(q);
        }
        completions_of_step(q) + drain_order(queue_after_step(q))
    }
}

/// Appending a task adds its cost to the total number of steps a drain
/// spends.
pub proof fn lemma_total_steps_push(q: Seq<Task>, t: Task)
    ensures
        total_steps(q.push(t)) == total_steps(q) + steps_to_finish(t),
    decreases q.len(),
{
    assert(total_steps(q.push(t)) == steps_to_finish(q.push(t)[0]) + total_steps(
        q.push(t).drop_first(),
    ));
    if q.len() == 0 {
        assert(q.push(t)[0] == t);
        assert(q.push(t).drop_first() =~= Seq::<Task>::empty());
        assert(total_steps(Seq::<Task>::empty()) == 0);
    } else {
        assert(q.push(t)[0] == q[0]);
        assert(q.push(t).drop_first() =~= q.drop_first().push(t));
        lemma_total_steps_push(q.drop_first(), t);
    }
}

/// One scheduling step on a non-empty queue spends exactly one `poll` call of
/// the total a drain needs.
pub proof fn lemma_step_spends_one(q: Seq<Task>)
    requires
        q.len() > 0,
    ensures
        total_steps(queue_after_step(q)) + 1 == total_steps(q),
{
    if q[0].computation.remaining > 0 {
        lemma_total_steps_push(q.drop_first(), after_suspend(q[0]));
    }
}

/// A lone task that suspends `k` times before completing is stepped exactly
/// `k + 1` times by a drain — once per suspension plus the completing call —
/// and its effect is logged exactly once. In particular a task that completes
/// on its first step (`k == 0`) costs a drain exactly one step.
pub proof fn lemma_single_task_drain(t: Task)
    ensures
        total_steps(seq![t]) == steps_to_finish(t),
        drain_order(seq![t]) == seq![t.computation.effect],
    decreases t.computation.remaining,
{
    assert(seq![t].drop_first() =~= Seq::<Task>::empty());
    assert(total_steps(Seq::<Task>::empty()) == 0);
    if t.computation.remaining == 0 {
        assert(drain_order(Seq::<Task>::empty()) =~= Seq::<u64>::empty());
        assert(drain_order(seq![t]) =~= seq![t.computation.effect]);
    } else {
        assert(queue_after_step(seq![t]) =~= seq![after_suspend(t)]);
        lemma_single_task_drain(after_suspend(t));
        assert(drain_order(seq![t]) =~= seq![t.computation.effect]);
    }
}

/// When every queued task completes on its first step, a drain steps each
/// task exactly once — the total number of steps equals the number of tasks —
/// and completes each exactly once, in queue (spawn) order.
pub proof fn lemma_immediate_tasks_complete_in_order(q: Seq<Task>)
    requires
        forall|i: int| 0 <= i < q.len() ==> q[i].computation.remaining == 0,
    ensures
        total_steps(q) == q.len(),
        drain_order(q) == q.map_values(|t: Task| t.computation.effect),
    decreases q.len(),
{
    if q.len() == 0 {
        assert(drain_order(q) =~= q.map_values(|t: Task| t.computation.effect));
    } else {
        assert(forall|i: int|
            0 <= i < q.drop_first().len() ==> q.drop_first()[i] == q[i + 1]);
        lemma_immediate_tasks_complete_in_order(q.drop_first());
        assert(drain_order(q) == seq![q[0].computation.effect] + drain_order(q.drop_first()));
        assert(drain_order(q) =~= q.map_values(|t: Task| t.computation.effect));
    }
}

/// Whatever mix of suspension counts the queue holds, a drain completes every
/// queued task exactly once: the completions it logs are exactly the queued
/// tasks' effects, with suspensions permuting only the order.
pub proof fn lemma_drain_completes_each_task_once(q: Seq<Task>)
    ensures
        drain_order(q).to_multiset() == q.map_values(
            |t: Task| t.computation.effect,
        ).to_multiset(),
    decreases total_steps(q),
{
    broadcast use vstd::seq_lib::group_to_multiset_ensures;
    broadcast use vstd::multiset::group_multiset_axioms;

    let eff = |t: Task| t.computation.effect;
    if q.len() == 0 {
        assert(drain_order(q) =~= Seq::<u64>::empty());
        assert(q.map_values(eff) =~= Seq::<u64>::empty());
    } else {
        lemma_step_spends_one(q);
        lemma_drain_completes_each_task_once(queue_after_step(q));
        assert(q.map_values(eff) =~= seq![eff(q[0])] + q.drop_first().map_values(eff));
        vstd::seq_lib::lemma_multiset_commutative(seq![eff(q[0])], q.drop_first().map_values(eff));
        assert(Seq::<u64>::empty().push(eff(q[0])) =~= seq![eff(q[0])]);
        if q[0].computation.remaining == 0 {
            vstd::seq_lib::lemma_multiset_commutative(
                seq![q[0].computation.effect],
                drain_order(q.drop_first()),
            );
            assert(drain_order(q).to_multiset() =~= q.map_values(eff).to_multiset());
        } else {
            assert(drain_order(q) =~= drain_order(queue_after_step(q)));
            assert(queue_after_step(q).map_values(eff) =~= q.drop_first().map_values(eff).push(
                eff(q[0]),
            ));
            assert(drain_order(q).to_multiset() =~= q.map_values(eff).to_multiset());
        }
    }
}

/// The task executor: owns the FIFO ready queue and drives tasks to
/// completion on a single logical worker.
///
/// Beyond the queue it keeps two observations of its own behaviour: the log
/// of completed tasks' effects (in completion order) and the total number of
/// `poll` calls it has made.
pub struct Executor {
    /// Queue of tasks pending execution, head first.
    pub task_queue: VecDeque<Task>,
    /// Effects of completed tasks, in the order they completed.
    pub completion_log: Vec<u64>,
    /// Total number of `poll` calls this executor has made.
    pub steps_taken: u64,
}

impl Executor {
    /// Creates an executor with an empty ready queue, an empty completion
    /// log, and no steps taken.
    pub fn new() -> (e: Executor)
        ensures
            e.task_queue@ == Seq::<Task>::empty(),
            e.completion_log@ == Seq::<u64>::empty(),
            e.steps_taken == 0,
    {
        Executor { task_queue: VecDeque::new(), completion_log: Vec::new(), steps_taken: 0 }
    }

    /// Appends a task to the tail of the ready queue.
    pub fn enqueue(&mut self, task: Task)
        ensures
            final(self).task_queue@ == old(self).task_queue@.push(task),
            final(self).completion_log@ == old(self).completion_log@,
            final(self).steps_taken == old(self).steps_taken,
    {
        self.task_queue.push_back(task);
    }

    /// Wraps a computation into a task and appends it to the tail of the
    /// ready queue.
    pub fn spawn(&mut self, computation: Computation)
        ensures
            final(self).task_queue@ == old(self).task_queue@.push(
                Task { computation },
            ),
            final(self).completion_log@ == old(self).completion_log@,
            final(self).steps_taken == old(self).steps_taken,
    {
        let task = Task::new(computation);
        self.enqueue(task);
    }

    /// Performs one scheduling step: pops the head of the ready queue (a
    /// no-op returning `false` if the queue is empty), binds a fresh waker to
    /// it, and polls it once. A completed task is dropped and its effect
    /// logged; a suspended task rejoins the tail of the queue if and only if
    /// its waker was signalled during the poll.
    pub fn run_one_tick(&mut self) -> (progressed: bool)
        requires
            old(self).task_queue@.len() > 0 ==> old(self).steps_taken < u64::MAX,
        ensures
            progressed == (old(self).task_queue@.len() > 0),
            final(self).task_queue@ == queue_after_step(old(self).task_queue@),
            final(self).completion_log@ == old(self).completion_log@ + completions_of_step(
                old(self).task_queue@,
            ),
            final(self).steps_taken == old(self).steps_taken + (
            if old(self).task_queue@.len() > 0 {
                1int
            } else {
                0int
            }),
    {
        match self.task_queue.pop_front() {
            None => {
                assert(self.completion_log@ =~= old(self).completion_log@ + completions_of_step(
                    old(self).task_queue@,
                ));
                false
            },
            Some(mut task) => {
                let mut waker = TaskWaker::new();
                match task.poll(&mut waker) {
                    Step::Completed => {
                        self.completion_log.push(task.computation.effect);
                        assert(self.completion_log@ =~= old(self).completion_log@
                            + completions_of_step(old(self).task_queue@));
                    },
                    Step::Suspended => {
                        if waker.is_notified() {
                            self.task_queue.push_back(task);
                        }
                        assert(self.completion_log@ =~= old(self).completion_log@
                            + completions_of_step(old(self).task_queue@));
                    },
                }
                self.steps_taken = self.steps_taken + 1;
                true
            },
        }
    }

    /// Drains the ready queue: repeatedly performs scheduling steps until the
    /// queue is empty, giving run-to-completion semantics. The completion log
    /// grows by exactly the queued tasks' effects in FIFO round-robin
    /// completion order, and the number of `poll` calls made equals the total
    /// the queue owed.
    pub fn run(&mut self)
        requires
            old(self).steps_taken + total_steps(old(self).task_queue@) <= u64::MAX,
        ensures
            final(self).task_queue@.len() == 0,
            final(self).completion_log@ == old(self).completion_log@ + drain_order(
                old(self).task_queue@,
            ),
            final(self).steps_taken == old(self).steps_taken + total_steps(
                old(self).task_queue@,
            ),
    {
        let ghost q0 = self.task_queue@;
        let ghost log0 = self.completion_log@;
        let ghost s0 = self.steps_taken;
        while self.task_queue.len() > 0
            invariant
                log0 + drain_order(q0) == self.completion_log@ + drain_order(self.task_queue@),
                s0 + total_steps(q0) == self.steps_taken + total_steps(self.task_queue@),
                self.steps_taken + total_steps(self.task_queue@) <= u64::MAX,
            decreases total_steps(self.task_queue@),
        {
            let ghost qpre = self.task_queue@;
            let ghost logpre = self.completion_log@;
            proof {
                lemma_step_spends_one(qpre);
            }
            self.run_one_tick();
            proof {
                assert(drain_order(qpre) == completions_of_step(qpre) + drain_order(
                    queue_after_step(qpre),
                ));
                assert(logpre + drain_order(qpre) =~= self.completion_log@ + drain_order(
                    self.task_queue@,
                ));
            }
        }
        proof {
            assert(drain_order(self.task_queue@) =~= Seq::<u64>::empty());
            assert(log0 + drain_order(q0) =~= self.completion_log@);
        }
    }
}

} // verus!
