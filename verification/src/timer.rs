use vstd::prelude::*;
use crate::task::Task;

verus! {

/// A deferred admission: `task` becomes eligible for the ready queue once the
/// current time has reached `deadline`.
#[derive(Clone, Copy, PartialEq, Eq, Structural, Debug)]
pub struct TimerEntry {
    /// Absolute timestamp, in the caller's time unit, at which the task
    /// becomes eligible.
    pub deadline: u64,
    /// The task awaiting admission.
    pub task: Task,
}

/// The tasks among `entries` whose deadline has been reached at `now`, in
/// storage order.
pub open spec fn expired_tasks(entries: Seq<TimerEntry>, now: u64) -> Seq<Task>
    decreases entries.len(),
{
    if entries.len() == 0 {
        Seq::empty()
    } else if entries[0].deadline <= now {
        seq![entries[0].task] + expired_tasks(entries.drop_first(), now)
    } else {
        expired_tasks(entries.drop_first(), now)
    }
}

/// The entries among `entries` whose deadline is still in the future at
/// `now`, in storage order.
pub open spec fn live_entries(entries: Seq<TimerEntry>, now: u64) -> Seq<TimerEntry>
    decreases entries.len(),
{
    if entries.len() == 0 {
        Seq::empty()
    } else if entries[0].deadline <= now {
        live_entries(entries.drop_first(), now)
    } else {
        seq![entries[0]] + live_entries(entries.drop_first(), now)
    }
}

/// A newly stored entry is promoted at `now` exactly when its deadline has
/// been reached: before the deadline it stays in the wheel, unpromoted, and
/// from the deadline on it is promoted, after the entries stored before it.
pub proof fn lemma_deferred_admission(entries: Seq<TimerEntry>, e: TimerEntry, now: u64)
    ensures
        e.deadline <= now ==> expired_tasks(entries.push(e), now) == expired_tasks(
            entries,
            now,
        ).push(e.task) && live_entries(entries.push(e), now) == live_entries(entries, now),
        e.deadline > now ==> expired_tasks(entries.push(e), now) == expired_tasks(entries, now)
            && live_entries(entries.push(e), now) == live_entries(entries, now).push(e),
    decreases entries.len(),
{
    if entries.len() == 0 {
        assert(entries.push(e)[0] == e);
        assert(entries.push(e).drop_first() =~= Seq::<TimerEntry>::empty());
        assert(expired_tasks(Seq::<TimerEntry>::empty(), now) =~= Seq::<Task>::empty());
        assert(live_entries(Seq::<TimerEntry>::empty(), now) =~= Seq::<TimerEntry>::empty());
        if e.deadline <= now {
            assert(expired_tasks(entries.push(e), now) =~= expired_tasks(entries, now).push(
                e.task,
            ));
        } else {
            assert(live_entries(entries.push(e), now) =~= live_entries(entries, now).push(e));
        }
    } else {
        assert(entries.push(e)[0] == entries[0]);
        assert(entries.push(e).drop_first() =~= entries.drop_first().push(e));
        lemma_deferred_admission(entries.drop_first(), e, now);
        if e.deadline <= now {
            assert(expired_tasks(entries.push(e), now) =~= expired_tasks(entries, now).push(
                e.task,
            ));
            assert(live_entries(entries.push(e), now) =~= live_entries(entries, now));
        } else {
            assert(expired_tasks(entries.push(e), now) =~= expired_tasks(entries, now));
            assert(live_entries(entries.push(e), now) =~= live_entries(entries, now).push(e));
        }
    }
}

/// Holds (deadline, task) pairs awaiting admission into the ready queue.
///
/// Precision is bounded by how often the runtime's non-blocking tick calls
/// `promote_expired`: the wheel makes no finer real-time guarantee than the
/// caller's polling cadence.
pub struct TimerWheel {
    /// The deferred admissions, in the order they were scheduled.
    pub timers: Vec<TimerEntry>,
}

impl TimerWheel {
    /// Creates a wheel with no pending timers.
    pub fn new() -> (w: TimerWheel)
        ensures
            w.timers@ == Seq::<TimerEntry>::empty(),
    {
        TimerWheel { timers: Vec::new() }
    }

    /// Stores a task for admission once the time reaches `deadline`.
    pub fn schedule(&mut self, task: Task, deadline: u64)
        ensures
            final(self).timers@ == old(self).timers@.push(TimerEntry { deadline, task }),
    {
        self.timers.push(TimerEntry { deadline, task });
    }

    /// Removes and returns the tasks of all entries whose deadline has been
    /// reached at `now`, for transfer into the ready queue; entries whose
    /// deadline is still in the future stay, in their storage order.
    pub fn promote_expired(&mut self, now: u64) -> (ready: Vec<Task>)
        ensures
            ready@ == expired_tasks(old(self).timers@, now),
            final(self).timers@ == live_entries(old(self).timers@, now),
    {
        let ghost entries0 = self.timers@;
        let mut ready: Vec<Task> = Vec::new();
        let mut kept: Vec<TimerEntry> = Vec::new();
        let n: usize = self.timers.len();
        let mut i: usize = 0;
        while i < n
            invariant
                i <= n,
                n == self.timers@.len(),
                self.timers@ == entries0,
                ready@ == expired_tasks(entries0.take(i as int), now),
                kept@ == live_entries(entries0.take(i as int), now),
            decreases n - i,
        {
            let entry = self.timers[i];
            proof {
                assert(entries0.take(i + 1) =~= entries0.take(i as int).push(entries0[i as int]));
                lemma_deferred_admission(entries0.take(i as int), entries0[i as int], now);
            }
            if entry.deadline <= now {
                ready.push(entry.task);
            } else {
                kept.push(entry);
            }
            i = i + 1;
        }
        proof {
            assert(entries0.take(n as int) =~= entries0);
        }
        self.timers = kept;
        ready
    }
}

} // verus!
