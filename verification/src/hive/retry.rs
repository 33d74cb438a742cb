//! Tasks that failed and wait for their next run.

use crate::bee::Worker;
use crate::hive::task::Task;
use vstd::arithmetic::power2::{lemma_pow2_strictly_increases, lemma_pow2_unfold, pow2};
use vstd::prelude::*;

verus! {

/// The time that a task waits before its next run when it has failed `failures + 1` times:
/// `retry_factor * 2^failures`, or `u64::MAX` where that is larger, in nanoseconds. Without
/// a retry factor a task does not wait.
pub open spec fn retry_delay(retry_factor: Option<u64>, failures: u32) -> u64 {
    match retry_factor {
        None => 0,
        Some(factor) => if factor * pow2(failures as nat) > u64::MAX {
            u64::MAX
        } else {
            (factor * pow2(failures as nat)) as u64
        },
    }
}

/// The delay never shrinks from one failure to the next.
pub proof fn lemma_retry_delay_monotonic(retry_factor: Option<u64>, failures: u32)
    requires
        failures < u32::MAX,
    ensures
        retry_delay(retry_factor, failures) <= retry_delay(retry_factor, (failures + 1) as u32),
{
    if let Some(factor) = retry_factor {
        let low = pow2(failures as nat);
        let high = pow2((failures + 1) as nat);
        lemma_pow2_strictly_increases(failures as nat, (failures + 1) as nat);
        assert(factor * low <= factor * high) by (nonlinear_arith)
            requires
                low < high,
                factor >= 0,
        ;
    }
}

/// Computes [`retry_delay`].
pub fn compute_retry_delay(retry_factor: Option<u64>, failures: u32) -> (delay: u64)
    ensures
        delay == retry_delay(retry_factor, failures),
{
    let factor: u64 = match retry_factor {
        None => {
            return 0;
        },
        Some(factor) => factor,
    };
    if factor == 0 {
        assert(0 * pow2(failures as nat) == 0) by (nonlinear_arith);
        return 0;
    }
    let mut delay: u64 = factor;
    let mut doubled: u32 = 0;
    proof {
        vstd::arithmetic::power2::lemma2_to64();
        assert(factor * 1 == factor) by (nonlinear_arith);
    }
    while doubled < failures
        invariant
            doubled <= failures,
            delay == factor * pow2(doubled as nat),
            factor > 0,
            retry_factor == Some(factor),
        decreases failures - doubled,
    {
        let ghost reached = pow2(doubled as nat);
        let ghost next = pow2((doubled + 1) as nat);
        let ghost last = pow2(failures as nat);
        proof {
            lemma_pow2_unfold((doubled + 1) as nat);
            assert(factor * next == 2 * (factor * reached)) by (nonlinear_arith)
                requires
                    next == 2 * reached,
            ;
        }
        match delay.checked_mul(2) {
            Some(twice) => {
                delay = twice;
                doubled = doubled + 1;
            },
            None => {
                proof {
                    if doubled + 1 < failures {
                        lemma_pow2_strictly_increases((doubled + 1) as nat, failures as nat);
                    }
                    assert(factor * next <= factor * last) by (nonlinear_arith)
                        requires
                            next <= last,
                            factor > 0,
                    ;
                }
                return u64::MAX;
            },
        }
    }
    delay
}

/// The tasks that wait for their next run, each with the time from which it may run, in the
/// order in which they become available: the earliest first, and of two tasks with the same
/// time the one that was queued first.
#[verifier::reject_recursive_types(W)]
pub struct RetryQueue<W: Worker> {
    entries: Vec<(u64, Task<W>)>,
}

/// Whether the times in `entries` never decrease.
pub open spec fn by_deadline<W: Worker>(entries: Seq<(u64, Task<W>)>) -> bool {
    forall|i: int, j: int| 0 <= i <= j < entries.len() ==> entries[i].0 <= entries[j].0
}

/// The place of a new entry with time `deadline` in `entries`: behind every entry that is
/// not later than it.
pub open spec fn slot_for<W: Worker>(entries: Seq<(u64, Task<W>)>, deadline: u64) -> int
    decreases entries.len(),
{
    if entries.len() == 0 || entries[0].0 > deadline {
        0
    } else {
        1 + slot_for(entries.drop_first(), deadline)
    }
}

/// The tasks of `entries`, in their order.
pub open spec fn tasks_of<W: Worker>(entries: Seq<(u64, Task<W>)>) -> Seq<Task<W>> {
    Seq::new(entries.len(), |i: int| entries[i].1)
}

/// The time from which the first task of `entries` may run.
pub open spec fn first_deadline<W: Worker>(entries: Seq<(u64, Task<W>)>) -> Option<u64> {
    if entries.len() == 0 {
        None
    } else {
        Some(entries[0].0)
    }
}

/// The time at which a task that is queued at `now` with a delay of `delay` may run.
pub open spec fn deadline_of(now: u64, delay: u64) -> u64 {
    if now + delay > u64::MAX {
        u64::MAX
    } else {
        (now + delay) as u64
    }
}

/// The place of a new entry is a place of the queue, or the one behind its last.
pub proof fn lemma_slot_for_bounds<W: Worker>(entries: Seq<(u64, Task<W>)>, deadline: u64)
    ensures
        0 <= slot_for(entries, deadline) <= entries.len(),
    decreases entries.len(),
{
    if !(entries.len() == 0 || entries[0].0 > deadline) {
        lemma_slot_for_bounds(entries.drop_first(), deadline);
    }
}

/// In a queue that is ordered by time, a new entry goes between the entries that are not
/// later than it and those that are.
pub proof fn lemma_slot_for<W: Worker>(entries: Seq<(u64, Task<W>)>, deadline: u64)
    requires
        by_deadline(entries),
    ensures
        0 <= slot_for(entries, deadline) <= entries.len(),
        forall|i: int| 0 <= i < slot_for(entries, deadline) ==> entries[i].0 <= deadline,
        forall|i: int|
            slot_for(entries, deadline) <= i < entries.len() ==> entries[i].0 > deadline,
    decreases entries.len(),
{
    if entries.len() == 0 || entries[0].0 > deadline {
    } else {
        let rest = entries.drop_first();
        lemma_slot_for(rest, deadline);
        assert forall|i: int| 0 <= i < slot_for(entries, deadline) implies entries[i].0
            <= deadline by {
            if i > 0 {
                assert(entries[i] == rest[i - 1]);
            }
        }
        assert forall|i: int| slot_for(entries, deadline) <= i < entries.len() implies entries[i].0
            > deadline by {
            assert(entries[i] == rest[i - 1]);
        }
    }
}

impl<W: Worker> View for RetryQueue<W> {
    type V = Seq<(u64, Task<W>)>;

    closed spec fn view(&self) -> Seq<(u64, Task<W>)> {
        self.entries@
    }
}

impl<W: Worker> RetryQueue<W> {
    /// The queue is ordered by time.
    pub open spec fn wf(&self) -> bool {
        by_deadline(self@)
    }

    /// An empty queue.
    pub fn new() -> (queue: Self)
        ensures
            queue@ == Seq::<(u64, Task<W>)>::empty(),
            queue.wf(),
    {
        RetryQueue { entries: Vec::new() }
    }

    /// The number of tasks that wait.
    pub fn len(&self) -> (n: usize)
        ensures
            n == self@.len(),
    {
        self.entries.len()
    }

    /// Queues `task` to run `delay` nanoseconds after `now`, and returns the time from
    /// which it may run.
    pub fn push(&mut self, task: Task<W>, delay: u64, now: u64) -> (deadline: u64)
        requires
            old(self).wf(),
        ensures
            deadline == deadline_of(now, delay),
            final(self)@ == old(self)@.insert(slot_for(old(self)@, deadline), (deadline, task)),
            final(self).wf(),
    {
        let deadline = now.saturating_add(delay);
        let ghost before = self@;
        let mut slot: usize = 0;
        assert(before.skip(0) =~= before);
        while slot < self.entries.len() && self.entries[slot].0 <= deadline
            invariant
                self@ == before,
                0 <= slot <= before.len(),
                slot_for(before, deadline) == slot + slot_for(before.skip(slot as int), deadline),
            decreases before.len() - slot,
        {
            proof {
                let rest = before.skip(slot as int);
                assert(rest[0] == before[slot as int]);
                assert(rest.drop_first() == before.skip(slot + 1));
            }
            slot = slot + 1;
        }
        proof {
            let rest = before.skip(slot as int);
            if slot < before.len() {
                assert(rest[0] == before[slot as int]);
            }
            lemma_slot_for(before, deadline);
        }
        self.entries.insert(slot, (deadline, task));
        deadline
    }

    /// The time from which the first task of the queue may run.
    pub fn next_available(&self) -> (deadline: Option<u64>)
        ensures
            deadline == first_deadline(self@),
    {
        if self.entries.len() == 0 {
            None
        } else {
            Some(self.entries[0].0)
        }
    }

    /// Takes the first task out of the queue if it may run at `now`.
    pub fn try_pop(&mut self, now: u64) -> (task: Option<Task<W>>)
        requires
            old(self).wf(),
        ensures
            final(self).wf(),
            match task {
                Some(task) => {
                    &&& old(self)@.len() > 0
                    &&& old(self)@[0].0 <= now
                    &&& task == old(self)@[0].1
                    &&& final(self)@ == old(self)@.drop_first()
                },
                None => {
                    &&& old(self)@.len() > 0 ==> old(self)@[0].0 > now
                    &&& final(self)@ == old(self)@
                },
            },
    {
        if self.entries.len() > 0 && self.entries[0].0 <= now {
            let first = self.entries.remove(0);
            Some(first.1)
        } else {
            None
        }
    }

    /// Takes every task out of the queue, whenever it was to run, in the queue's order.
    pub fn drain(&mut self) -> (tasks: Vec<Task<W>>)
        ensures
            tasks@ == tasks_of(old(self)@),
            final(self)@ == Seq::<(u64, Task<W>)>::empty(),
            final(self).wf(),
    {
        let mut entries: Vec<(u64, Task<W>)> = Vec::new();
        std::mem::swap(&mut self.entries, &mut entries);
        let ghost all = entries@;
        let mut tasks: Vec<Task<W>> = Vec::new();
        for entry in it: entries
            invariant
                it.seq() == all,
                tasks@ == tasks_of(all.take(it.index() as int)),
        {
            tasks.push(entry.1);
            assert(tasks_of(all.take(it.index() + 1)) =~= tasks_of(all.take(it.index() as int)).push(
                entry.1,
            ));
        }
        assert(all.take(all.len() as int) =~= all);
        assert(tasks_of(Seq::<(u64, Task<W>)>::empty()) =~= Seq::<Task<W>>::empty());
        tasks
    }
}

} // verus!
