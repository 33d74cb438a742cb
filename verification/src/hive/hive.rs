//! The handle through which tasks are submitted to a hive.

use crate::bee::{Context, Queen, Worker};
use crate::hive::config::Config;
use crate::hive::husk::{Husk, HuskState};
use crate::hive::retry::tasks_of;
use crate::hive::shared::Shared;
use crate::hive::state::{
    drained_into, indices_from, lemma_drained_in_turn, submission_of, HiveState,
};
use crate::hive::task::{OutcomeSender, Task};
use vstd::prelude::*;

verus! {

/// A hive, as its submitters see it. It holds the state of the hive; the worker threads
/// that a program runs on it take their tasks from [`Hive::shared`].
#[verifier::reject_recursive_types(W)]
pub struct Hive<W: Worker, Q: Queen<Kind = W>> {
    /// The state of the hive.
    pub shared: Shared<W, Q>,
}

impl<W: Worker, Q: Queen<Kind = W>> View for Hive<W, Q> {
    type V = HiveState<W, Q>;

    open spec fn view(&self) -> HiveState<W, Q> {
        self.shared@
    }
}

impl<W: Worker, Q: Queen<Kind = W>> Hive<W, Q> {
    /// What every hive keeps to.
    pub open spec fn wf(&self) -> bool {
        self.shared.wf()
    }

    /// A new hive with the given settings and factory.
    pub fn new(config: Config, queen: Q) -> (hive: Self)
        ensures
            hive.wf(),
            hive@ == HiveState::<W, Q>::fresh(config.settings(), queen),
    {
        Hive { shared: Shared::new(config, queen) }
    }

    /// Submits one input, of which the outcome is to be sent to `tx`, and returns the index
    /// of its task.
    pub fn apply_send(&mut self, input: W::Input, tx: OutcomeSender<W>) -> (index: usize)
        requires
            old(self).wf(),
            old(self)@.queued < u64::MAX,
            old(self)@.next_task_index < usize::MAX,
        ensures
            final(self).wf(),
            index == old(self)@.next_task_index,
            final(self)@ == old(self)@.submitted(
                seq![Task::<W> { input, ctx: Context { index, attempt: 0 }, outcome_tx: Some(tx) }],
            ),
    {
        let task = self.shared.prepare_task(input, Some(tx));
        let index = task.index();
        assert(old(self)@.tasks.push(task) =~= old(self)@.tasks + seq![task]);
        self.shared.push_task(task);
        index
    }

    /// Submits one input, of which the outcome is to be kept in the hive, and returns the
    /// index of its task.
    pub fn apply_store(&mut self, input: W::Input) -> (index: usize)
        requires
            old(self).wf(),
            old(self)@.queued < u64::MAX,
            old(self)@.next_task_index < usize::MAX,
        ensures
            final(self).wf(),
            index == old(self)@.next_task_index,
            final(self)@ == old(self)@.submitted(
                seq![Task::<W> { input, ctx: Context { index, attempt: 0 }, outcome_tx: None }],
            ),
    {
        let task = self.shared.prepare_task(input, None);
        let index = task.index();
        assert(old(self)@.tasks.push(task) =~= old(self)@.tasks + seq![task]);
        self.shared.push_task(task);
        index
    }

    /// Submits a batch of inputs and returns the indices of their tasks, in the order of
    /// the inputs.
    fn swarm(&mut self, inputs: Vec<W::Input>, outcome_tx: Option<OutcomeSender<W>>) -> (indices:
        Vec<usize>)
        requires
            old(self).wf(),
            old(self)@.queued + inputs.len() <= u64::MAX,
            old(self)@.next_task_index + inputs.len() <= usize::MAX,
        ensures
            final(self).wf(),
            indices@ == indices_from(old(self)@.next_task_index, inputs.len() as nat),
            exists|tasks: Seq<Task<W>>| #[trigger]
                submission_of(tasks, old(self)@.next_task_index, inputs@, outcome_tx)
                    && final(self)@ == old(self)@.submitted(tasks),
    {
        let ghost before = self@;
        let ghost count = inputs.len();
        let batch = self.shared.prepare_batch(inputs.len(), inputs, outcome_tx);
        let ghost all = batch@;
        let mut indices: Vec<usize> = Vec::new();
        for task in it: batch
            invariant
                it.seq() == all,
                all.len() == count,
                before.next_task_index + count <= usize::MAX,
                forall|i: int|
                    0 <= i < all.len() ==> (#[trigger] all[i]).ctx == (Context {
                        index: (before.next_task_index + i) as usize,
                        attempt: 0,
                    }),
                self.wf(),
                self@ == (HiveState {
                    tasks: before.tasks + all.take(it.index() as int),
                    queued: before.queued + count as nat,
                    next_task_index: before.next_task_index + count as nat,
                    ..before
                }),
                indices@ == indices_from(before.next_task_index, it.index() as nat),
        {
            indices.push(task.index());
            self.shared.push_task(task);
            proof {
                assert(all.take(it.index() + 1) =~= all.take(it.index() as int).push(task));
                assert((before.tasks + all.take(it.index() as int)).push(task) =~= before.tasks
                    + all.take(it.index() + 1));
                assert(indices@ =~= indices_from(
                    before.next_task_index,
                    (it.index() + 1) as nat,
                ));
            }
        }
        proof {
            assert(all.take(all.len() as int) =~= all);
            assert(submission_of(all, before.next_task_index, inputs@, outcome_tx));
        }
        indices
    }

    /// Submits a batch of inputs, of which the outcomes are to be sent to `tx`, and returns
    /// the indices of their tasks, in the order of the inputs.
    pub fn swarm_send(&mut self, inputs: Vec<W::Input>, tx: OutcomeSender<W>) -> (indices: Vec<
        usize,
    >)
        requires
            old(self).wf(),
            old(self)@.queued + inputs.len() <= u64::MAX,
            old(self)@.next_task_index + inputs.len() <= usize::MAX,
        ensures
            final(self).wf(),
            indices@ == indices_from(old(self)@.next_task_index, inputs.len() as nat),
            exists|tasks: Seq<Task<W>>| #[trigger]
                submission_of(tasks, old(self)@.next_task_index, inputs@, Some(tx))
                    && final(self)@ == old(self)@.submitted(tasks),
    {
        self.swarm(inputs, Some(tx))
    }

    /// Submits a batch of inputs, of which the outcomes are to be kept in the hive, and
    /// returns the indices of their tasks, in the order of the inputs.
    pub fn swarm_store(&mut self, inputs: Vec<W::Input>) -> (indices: Vec<usize>)
        requires
            old(self).wf(),
            old(self)@.queued + inputs.len() <= u64::MAX,
            old(self)@.next_task_index + inputs.len() <= usize::MAX,
        ensures
            final(self).wf(),
            indices@ == indices_from(old(self)@.next_task_index, inputs.len() as nat),
            exists|tasks: Seq<Task<W>>| #[trigger]
                submission_of(tasks, old(self)@.next_task_index, inputs@, None)
                    && final(self)@ == old(self)@.submitted(tasks),
    {
        self.swarm(inputs, None)
    }

    /// Allows the hive `num_threads` more worker threads. Returns the number of the first
    /// of them and how many they are: the caller has to start that many threads, numbered
    /// from there.
    pub fn grow(&mut self, num_threads: usize) -> (start: (usize, usize))
        requires
            old(self).wf(),
        ensures
            final(self).wf(),
            Some(start.0) == old(self)@.settings.num_threads,
            start.1 == num_threads,
            final(self)@ == old(self)@.with_threads(start.0.wrapping_add(num_threads)),
    {
        (self.shared.add_threads(num_threads), num_threads)
    }

    /// Allows the hive `num_threads` worker threads in all, if it has fewer. Returns the
    /// number of the first thread that it lacks and how many it lacks: the caller has to
    /// start that many threads, numbered from there.
    pub fn ensure_threads(&mut self, num_threads: usize) -> (start: (usize, usize))
        requires
            old(self).wf(),
        ensures
            final(self).wf(),
            Some(start.0) == old(self)@.settings.num_threads,
            start.1 == (if start.0 < num_threads {
                num_threads - start.0
            } else {
                0
            }),
            final(self)@ == old(self)@.with_threads((start.0 + start.1) as usize),
    {
        let previous = self.shared.ensure_threads(num_threads);
        if previous < num_threads {
            (previous, num_threads - previous)
        } else {
            (previous, 0)
        }
    }

    /// Suspends the hive: no task is handed to a worker until the hive is let go on. The
    /// tasks that are being run are run to their end.
    pub fn suspend(&mut self)
        requires
            old(self).wf(),
        ensures
            final(self).wf(),
            final(self)@ == (HiveState { suspended: true, ..old(self)@ }),
    {
        let _ = self.shared.set_suspended(true);
    }

    /// Lets a suspended hive go on. Returns whether the hive was suspended, in which case
    /// the workers that wait for it have to be woken.
    pub fn resume(&mut self) -> (wake: bool)
        requires
            old(self).wf(),
        ensures
            final(self).wf(),
            wake == old(self)@.suspended,
            final(self)@ == (HiveState { suspended: false, ..old(self)@ }),
    {
        self.shared.set_suspended(false)
    }

    /// Whether one who waits for the hive to be done may go on: the hive has no work.
    pub fn is_done(&self) -> (done: bool)
        ensures
            done == !self@.has_work(),
    {
        self.shared.wait_on_done()
    }

    /// Ends the hive and keeps what is left of it. A hive that has other handles is
    /// handed back as it is. Else the hive is poisoned, and every task that waits is turned
    /// into its `Unprocessed` outcome, which is sent to the sender of the task, and kept
    /// where the task has no sender or the send fails.
    pub fn try_into_husk(self) -> (r: Result<Husk<W, Q>, Self>)
        requires
            self.wf(),
        ensures
            self@.num_referrers > 1 ==> r == Err::<Husk<W, Q>, Self>(self),
            self@.num_referrers <= 1 ==> (r matches Ok(husk) && husk.wf() && drained_into(
                self@.outcomes,
                self@.tasks + tasks_of(self@.retries),
                husk@.outcomes,
            ) && husk@ == (HuskState {
                settings: self@.settings,
                queen: self@.queen,
                num_panics: self@.num_panics,
                outcomes: husk@.outcomes,
            })),
    {
        if self.shared.num_referrers() > 1 {
            Err(self)
        } else {
            let mut shared = self.shared;
            shared.poison();
            proof {
                let tasks = self@.tasks + tasks_of(self@.retries);
                let none = Seq::<Task<W>>::empty();
                assert(none + tasks_of(Seq::<(u64, Task<W>)>::empty()) =~= none);
                assert(tasks + none =~= tasks);
            }
            let ghost between = shared@.outcomes;
            let husk = shared.try_into_husk();
            proof {
                lemma_drained_in_turn(
                    self@.outcomes,
                    self@.tasks + tasks_of(self@.retries),
                    between,
                    Seq::<Task<W>>::empty(),
                    husk@.outcomes,
                );
            }
            Ok(husk)
        }
    }
}

} // verus!
