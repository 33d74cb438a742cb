//! The state that the submitters, the workers and the observers of one hive share.

use crate::atomic::option_cloned;
use crate::bee::{Attempt, Context, Queen, Worker};
use crate::hive::channel::try_send_msg;
use crate::hive::config::{Config, Settings};
use crate::hive::cores::{core_of, lemma_united, united, Core, Cores};
use crate::hive::counter::{CounterError, DualCounter};
use crate::hive::husk::{Husk, HuskState};
use crate::hive::outcome::store::{
    get_outcome, insert_outcome, keyed_by_index, lists_chosen, remove_outcome, take_chosen,
    without_chosen,
};
use crate::hive::outcome::Outcome;
use crate::hive::retry::{
    compute_retry_delay, deadline_of, first_deadline, lemma_slot_for, tasks_of, RetryQueue,
};
use crate::hive::state::{
    drained_into, fetched, handed, indices_of, lemma_drained_in_turn,
    lemma_with_unprocessed_keyed, may_be_unsent, requeued, retries_left, verdict,
    submission_of, with_unprocessed, HiveState, Verdict,
};
use crate::hive::task::{OutcomeSender, Task};
use std::collections::HashMap;
use std::collections::VecDeque;
use vstd::prelude::*;

verus! {

broadcast use vstd::std_specs::hash::group_hash_axioms;

/// How long a worker that found no task waits before it looks again, in nanoseconds.
pub const RECV_TIMEOUT: u64 = 1_000_000_000;

/// Why a worker got no task and has to end.
#[derive(Debug, Clone, Copy, PartialEq, Eq, Structural)]
pub enum NextTaskError {
    /// No task is queued and no handle of the hive is left that could submit one.
    Disconnected,
    /// The hive has been poisoned.
    Poisoned,
    /// The task counts could not be moved from queued to active.
    InvalidCounter(CounterError),
}

impl NextTaskError {
    /// The error in words.
    pub fn message(&self) -> (text: String)
        ensures
            text@ == (match self {
                NextTaskError::Disconnected => "Task receiver disconnected"@,
                NextTaskError::Poisoned => "The hive has been poisoned"@,
                NextTaskError::InvalidCounter(_) => "Task counter has invalid state"@,
            }),
    {
        match self {
            NextTaskError::Disconnected => "Task receiver disconnected".to_owned(),
            NextTaskError::Poisoned => "The hive has been poisoned".to_owned(),
            NextTaskError::InvalidCounter(_) => "Task counter has invalid state".to_owned(),
        }
    }
}

/// The state of a hive.
#[verifier::reject_recursive_types(W)]
pub struct Shared<W: Worker, Q: Queen<Kind = W>> {
    config: Config,
    queen: Q,
    tasks: VecDeque<Task<W>>,
    num_tasks: DualCounter,
    next_task_index: usize,
    num_panics: usize,
    num_referrers: usize,
    poisoned: bool,
    suspended: bool,
    outcomes: HashMap<usize, Outcome<W>>,
    retry_queue: RetryQueue<W>,
    next_retry: Option<u64>,
}

impl<W: Worker, Q: Queen<Kind = W>> View for Shared<W, Q> {
    type V = HiveState<W, Q>;

    closed spec fn view(&self) -> HiveState<W, Q> {
        HiveState {
            settings: self.config.settings(),
            queen: self.queen,
            tasks: self.tasks@,
            retries: self.retry_queue@,
            queued: self.num_tasks.left(),
            active: self.num_tasks.right(),
            next_task_index: self.next_task_index as nat,
            num_panics: self.num_panics,
            num_referrers: self.num_referrers,
            poisoned: self.poisoned,
            suspended: self.suspended,
            outcomes: self.outcomes@,
        }
    }
}

impl<W: Worker, Q: Queen<Kind = W>> Shared<W, Q> {
    /// What every state keeps to, and what its operations rely on.
    pub closed spec fn wf(&self) -> bool {
        &&& self@.wf()
        &&& self.config.is_sync()
        &&& self.retry_queue.wf()
        &&& self.next_retry == first_deadline(self.retry_queue@)
    }

    /// What every state keeps to says of what the state holds.
    pub proof fn lemma_wf(&self)
        requires
            self.wf(),
        ensures
            self@.wf(),
    {
    }

    /// The state of a new hive with the given settings and factory: nothing is queued,
    /// nothing is kept, and one handle exists. The settings are kept in cells from here on.
    pub fn new(config: Config, queen: Q) -> (shared: Self)
        ensures
            shared.wf(),
            shared@ == HiveState::<W, Q>::fresh(config.settings(), queen),
    {
        let shared = Shared {
            config: config.into_sync(),
            queen,
            tasks: VecDeque::new(),
            num_tasks: DualCounter::new(),
            next_task_index: 0,
            num_panics: 0,
            num_referrers: 1,
            poisoned: false,
            suspended: false,
            outcomes: HashMap::new(),
            retry_queue: RetryQueue::new(),
            next_retry: None,
        };
        proof {
            shared.num_tasks.lemma_bounded();
        }
        shared
    }

    /// Takes the next task for a worker, at the time `now`, and counts it as active.
    ///
    /// A suspended hive hands out nothing, and a poisoned one ends the worker. Otherwise
    /// the first retry is taken if it has come due, and else the oldest submitted task. A
    /// worker that finds nothing has to end when no handle of the hive is left, and to look
    /// again later when there is one.
    ///
    /// The task that was taken is lost where its count cannot be moved from queued to
    /// active; the hive is not poisoned on that account.
    pub fn next_task(&mut self, now: u64) -> (r: Result<Option<Task<W>>, NextTaskError>)
        requires
            old(self).wf(),
        ensures
            final(self).wf(),
            r == handed(old(self)@, now),
            final(self)@ == fetched(old(self)@, now),
    {
        if self.suspended {
            return Ok(None);
        }
        if self.poisoned {
            return Err(NextTaskError::Poisoned);
        }
        let has_retry = match self.next_retry {
            Some(deadline) => deadline <= now,
            None => false,
        };
        let mut taken: Option<Task<W>> = None;
        if has_retry {
            taken = self.retry_queue.try_pop(now);
            self.next_retry = self.retry_queue.next_available();
        }
        if taken.is_none() {
            taken = self.tasks.pop_front();
        }
        proof {
            self.num_tasks.lemma_bounded();
        }
        match taken {
            Some(task) => match self.num_tasks.transfer(1) {
                Ok(()) => Ok(Some(task)),
                Err(error) => Err(NextTaskError::InvalidCounter(error)),
            },
            None => if self.num_referrers == 0 {
                Err(NextTaskError::Disconnected)
            } else {
                Ok(None)
            },
        }
    }

    /// Counts one more queued task and gives it the next index. The task that comes back
    /// holds `input`, has not been run, and is not in any queue yet: see
    /// [`push_task`](Shared::push_task).
    pub fn prepare_task(&mut self, input: W::Input, outcome_tx: Option<OutcomeSender<W>>) -> (task:
        Task<W>)
        requires
            old(self).wf(),
            old(self)@.queued < u64::MAX,
            old(self)@.next_task_index < usize::MAX,
        ensures
            final(self).wf(),
            task == (Task::<W> {
                input,
                ctx: Context { index: old(self)@.next_task_index as usize, attempt: 0 },
                outcome_tx,
            }),
            final(self)@ == (HiveState {
                queued: old(self)@.queued + 1,
                next_task_index: old(self)@.next_task_index + 1,
                ..old(self)@
            }),
    {
        let counted = self.num_tasks.increment_left(1);
        assert(counted is Ok);
        let index = self.next_task_index;
        self.next_task_index = index + 1;
        Task::new(input, Context::new(index), outcome_tx)
    }

    /// Puts a task at the end of the queue of submitted tasks.
    pub fn push_task(&mut self, task: Task<W>)
        requires
            old(self).wf(),
        ensures
            final(self).wf(),
            final(self)@ == (HiveState { tasks: old(self)@.tasks.push(task), ..old(self)@ }),
    {
        self.tasks.push_back(task);
    }

    /// Counts one queued task for each input and gives them indices in their order. The
    /// first `min_size` indices and counts are taken in one step, before any task is made;
    /// each input beyond them is counted and numbered by itself. `min_size` is a promise
    /// that there are that many inputs.
    pub fn prepare_batch(
        &mut self,
        min_size: usize,
        inputs: Vec<W::Input>,
        outcome_tx: Option<OutcomeSender<W>>,
    ) -> (tasks: Vec<Task<W>>)
        requires
            old(self).wf(),
            min_size <= inputs.len(),
            old(self)@.queued + inputs.len() <= u64::MAX,
            old(self)@.next_task_index + inputs.len() <= usize::MAX,
        ensures
            final(self).wf(),
            final(self)@ == (HiveState {
                queued: old(self)@.queued + inputs.len() as nat,
                next_task_index: old(self)@.next_task_index + inputs.len() as nat,
                ..old(self)@
            }),
            submission_of(tasks@, old(self)@.next_task_index, inputs@, outcome_tx),
    {
        let ghost before = self@;
        let ghost all = inputs@;
        let reserved = self.num_tasks.increment_left(min_size as u64);
        assert(reserved is Ok);
        let index_start = self.next_task_index;
        self.next_task_index = index_start + min_size;
        let mut tasks: Vec<Task<W>> = Vec::new();
        let mut at: usize = 0;
        for input in it: inputs
            invariant
                it.seq() == all,
                at == it.index(),
                at == tasks.len(),
                min_size <= all.len(),
                index_start == before.next_task_index,
                before.queued + all.len() <= u64::MAX,
                before.next_task_index + all.len() <= usize::MAX,
                self.wf(),
                self@ == (HiveState {
                    queued: before.queued + (if at <= min_size {
                        min_size as nat
                    } else {
                        at as nat
                    }),
                    next_task_index: before.next_task_index + (if at <= min_size {
                        min_size as nat
                    } else {
                        at as nat
                    }),
                    ..before
                }),
                forall|i: int|
                    0 <= i < tasks.len() ==> {
                        &&& (#[trigger] tasks[i]).input == all[i]
                        &&& tasks[i].ctx == (Context {
                            index: (before.next_task_index + i) as usize,
                            attempt: 0,
                        })
                        &&& option_cloned(outcome_tx, tasks[i].outcome_tx)
                    },
        {
            let tx = outcome_tx.clone();
            let task = if at < min_size {
                Task::new(input, Context::new(index_start + at), tx)
            } else {
                self.prepare_task(input, tx)
            };
            tasks.push(task);
            at = at + 1;
        }
        tasks
    }

    /// Whether a task with the context `ctx` that failed is run again: the hive has a
    /// number of retries, and the task has failed fewer times than that before this run.
    pub fn can_retry(&self, ctx: &Context) -> (retry: bool)
        requires
            self.wf(),
        ensures
            retry == retries_left(self@.settings.max_retries, ctx.attempt),
    {
        match self.config.max_retries.get() {
            Some(max_retries) => ctx.attempt() < max_retries,
            None => false,
        }
    }

    /// Notes the time from which a retry may run: `None` when no retry waits, and else a
    /// time that replaces the one noted if that is later, or if none is noted.
    fn update_next_retry(&mut self, instant: Option<u64>)
        ensures
            *final(self) == (Shared {
                next_retry: match instant {
                    Some(new) => match old(self).next_retry {
                        Some(noted) => if new < noted {
                            Some(new)
                        } else {
                            Some(noted)
                        },
                        None => Some(new),
                    },
                    None => None,
                },
                ..*old(self)
            }),
    {
        match instant {
            Some(new) => {
                let replace = match self.next_retry {
                    Some(noted) => new < noted,
                    None => true,
                };
                if replace {
                    self.next_retry = Some(new);
                }
            },
            None => {
                self.next_retry = None;
            },
        }
    }

    /// Queues a task that failed for its next run, at the time `now`. `ctx` is the context
    /// of the run that failed. The task waits for [`retry_delay`] from `now`, counts one
    /// more failed run, and is counted as queued again.
    pub fn queue_retry(
        &mut self,
        input: W::Input,
        ctx: Context,
        outcome_tx: Option<OutcomeSender<W>>,
        now: u64,
    )
        requires
            old(self).wf(),
            old(self)@.queued < u64::MAX,
            ctx.attempt < u32::MAX,
        ensures
            final(self).wf(),
            final(self)@ == requeued(old(self)@, input, ctx, outcome_tx, now),
    {
        let delay = compute_retry_delay(self.config.retry_factor.get(), ctx.attempt());
        let mut ctx = ctx;
        ctx.inc_attempt();
        let task = Task::new(input, ctx, outcome_tx);
        let counted = self.num_tasks.increment_left(1);
        assert(counted is Ok);
        proof {
            lemma_slot_for(self.retry_queue@, deadline_of(now, delay));
        }
        let available_at = self.retry_queue.push(task, delay, now);
        self.update_next_retry(Some(available_at));
    }

    /// Counts a task that a worker has finished with as no longer active, and the panic
    /// if the run ended in one. Returns whether the hive is left without work, in which
    /// case those who wait for that have to be woken.
    pub fn finish_task(&mut self, panicking: bool) -> (idle: bool)
        requires
            old(self).wf(),
            old(self)@.active >= 1,
        ensures
            final(self).wf(),
            final(self)@ == old(self)@.finished(panicking),
            idle == !final(self)@.has_work(),
    {
        let counted = self.num_tasks.decrement_right(1);
        assert(counted is Ok);
        if panicking {
            self.num_panics = self.num_panics.wrapping_add(1);
        }
        self.no_work_notify_all()
    }

    /// The index that the next task will be given.
    pub fn next_task_index(&self) -> (index: usize)
        ensures
            index == self@.next_task_index,
    {
        self.next_task_index
    }

    /// The numbers of queued and of active tasks, as of one moment.
    pub fn num_tasks(&self) -> (counts: (u64, u64))
        ensures
            counts.0 == self@.queued,
            counts.1 == self@.active,
    {
        self.num_tasks.get()
    }

    /// Whether the hive has work to do: it is not poisoned, and a task is being run, or a
    /// task is queued and the hive is not suspended.
    pub fn has_work(&self) -> (work: bool)
        ensures
            work == self@.has_work(),
    {
        !self.is_poisoned() && {
            let (queued, active) = self.num_tasks();
            active > 0 || (!self.is_suspended() && queued > 0)
        }
    }

    /// Whether one who waits for the hive to be done may go on: the hive has no work.
    /// While this is false the caller has to wait and ask again.
    pub fn wait_on_done(&self) -> (done: bool)
        ensures
            done == !self@.has_work(),
    {
        !self.has_work()
    }

    /// Whether those who wait for the hive to be done have to be woken: the hive has no
    /// work.
    pub fn no_work_notify_all(&self) -> (notify: bool)
        ensures
            notify == !self@.has_work(),
    {
        !self.has_work()
    }

    /// The number of handles of the hive.
    pub fn num_referrers(&self) -> (n: usize)
        ensures
            n == self@.num_referrers,
    {
        self.num_referrers
    }

    /// Counts one more handle of the hive and returns the number before.
    pub fn referrer_is_cloning(&mut self) -> (previous: usize)
        requires
            old(self).wf(),
        ensures
            final(self).wf(),
            previous == old(self)@.num_referrers,
            final(self)@ == (HiveState {
                num_referrers: previous.wrapping_add(1),
                ..old(self)@
            }),
    {
        let previous = self.num_referrers;
        self.num_referrers = previous.wrapping_add(1);
        previous
    }

    /// Counts one handle of the hive less and returns the number before.
    pub fn referrer_is_dropping(&mut self) -> (previous: usize)
        requires
            old(self).wf(),
        ensures
            final(self).wf(),
            previous == old(self)@.num_referrers,
            final(self)@ == (HiveState {
                num_referrers: previous.wrapping_sub(1),
                ..old(self)@
            }),
    {
        let previous = self.num_referrers;
        self.num_referrers = previous.wrapping_sub(1);
        previous
    }

    /// Whether the hive has been poisoned. A poisoned hive may be given tasks and will
    /// never run them.
    pub fn is_poisoned(&self) -> (poisoned: bool)
        ensures
            poisoned == self@.poisoned,
    {
        self.poisoned
    }

    /// Suspends the hive or lets it go on, and returns whether that changed anything.
    /// When a suspended hive is let go on, the workers that wait for that have to be
    /// woken.
    pub fn set_suspended(&mut self, suspended: bool) -> (changed: bool)
        requires
            old(self).wf(),
        ensures
            final(self).wf(),
            changed == (old(self)@.suspended != suspended),
            final(self)@ == (HiveState { suspended, ..old(self)@ }),
    {
        let previous = self.suspended;
        self.suspended = suspended;
        previous != suspended
    }

    /// Whether the hive is suspended.
    pub fn is_suspended(&self) -> (suspended: bool)
        ensures
            suspended == self@.suspended,
    {
        self.suspended
    }

    /// The name and the stack size that the worker threads of the hive are to have.
    pub fn thread_builder(&self) -> (thread: ThreadSettings)
        requires
            self.wf(),
        ensures
            thread.spec_name() == self@.settings.thread_name,
            thread.stack_size == self@.settings.thread_stack_size,
    {
        ThreadSettings {
            name: self.config.thread_name.get(),
            stack_size: self.config.thread_stack_size.get(),
        }
    }

    /// Raises the number of threads that the hive may run by `num_threads`, wrapping
    /// around on overflow, and returns the number before.
    pub fn add_threads(&mut self, num_threads: usize) -> (previous: usize)
        requires
            old(self).wf(),
        ensures
            final(self).wf(),
            Some(previous) == old(self)@.settings.num_threads,
            final(self)@ == (HiveState {
                settings: Settings {
                    num_threads: Some(previous.wrapping_add(num_threads)),
                    ..old(self)@.settings
                },
                ..old(self)@
            }),
    {
        match self.config.num_threads.add(num_threads) {
            Ok(previous) => previous,
            Err(_) => vstd::pervasive::unreached(),
        }
    }

    /// Raises the number of threads that the hive may run to `num_threads` if it is
    /// smaller, and returns the number before.
    pub fn ensure_threads(&mut self, num_threads: usize) -> (previous: usize)
        requires
            old(self).wf(),
        ensures
            final(self).wf(),
            Some(previous) == old(self)@.settings.num_threads,
            final(self)@ == (HiveState {
                settings: Settings {
                    num_threads: Some(
                        if previous < num_threads {
                            num_threads
                        } else {
                            previous
                        },
                    ),
                    ..old(self)@.settings
                },
                ..old(self)@
            }),
    {
        match self.config.num_threads.set_max(num_threads) {
            Ok(previous) => previous,
            Err(_) => vstd::pervasive::unreached(),
        }
    }

    /// Has the factory make the processor of one more worker. The worker, and the factory
    /// as it is afterwards, are what the factory's own `create` gives when it is called on
    /// the factory as it was; the rest of the state stays as it is.
    pub fn create_worker(&mut self) -> (worker: W)
        requires
            old(self).wf(),
        ensures
            final(self).wf(),
            final(self)@ == (HiveState { queen: final(self)@.queen, ..old(self)@ }),
            exists|queen: &mut Q|
                {
                    &&& *queen == old(self)@.queen
                    &&& *final(queen) == final(self)@.queen
                    &&& #[trigger] call_ensures(Q::create, (queen,), worker)
                },
    {
        self.queen.create()
    }

    /// Adds cores to those that the worker threads may be pinned to. A hive without a set
    /// of cores stays without one.
    pub fn add_core_affinity(&mut self, new_cores: &Cores)
        requires
            old(self).wf(),
        ensures
            final(self).wf(),
            final(self)@ == (HiveState {
                settings: Settings {
                    affinity: match old(self)@.settings.affinity {
                        Some(cores) => Some(united(cores, new_cores@)),
                        None => None,
                    },
                    ..old(self)@.settings
                },
                ..old(self)@
            }),
    {
        let unite = |affinity: Cores| -> (answer: Option<Cores>)
            ensures
                match answer {
                    Some(grown) => grown@ == united(affinity@, new_cores@),
                    None => affinity@ == united(affinity@, new_cores@),
                },
            {
                let mut affinity = affinity;
                let ghost before = affinity@;
                let added = affinity.union(new_cores);
                proof {
                    lemma_united(before, new_cores@);
                }
                if added > 0 {
                    Some(affinity)
                } else {
                    None
                }
            };
        let _ = self.config.affinity.try_update_with(unite);
    }

    /// The core to which the worker thread numbered `thread_index` may be pinned, if the
    /// hive has a set of cores and that is not empty.
    pub fn get_core_affinity(&self, thread_index: usize) -> (core: Option<Core>)
        requires
            self.wf(),
        ensures
            core == (match self@.settings.affinity {
                Some(cores) => core_of(cores, thread_index),
                None => None,
            }),
    {
        match self.config.affinity.get() {
            Some(cores) => cores.get(thread_index),
            None => None,
        }
    }

    /// The outcomes that the hive keeps.
    pub fn outcomes(&self) -> (outcomes: &HashMap<usize, Outcome<W>>)
        ensures
            outcomes@ == self@.outcomes,
    {
        &self.outcomes
    }

    /// The outcome that the hive keeps of the task with the index `index`, if it keeps
    /// one.
    pub fn get(&self, index: usize) -> (outcome: Option<&Outcome<W>>)
        ensures
            match outcome {
                Some(outcome) => self@.outcomes.contains_key(index) && *outcome
                    == self@.outcomes[index],
                None => !self@.outcomes.contains_key(index),
            },
    {
        get_outcome(&self.outcomes, index)
    }

    /// Takes the outcome of the task with the index `index` out of the hive, if it keeps
    /// one.
    pub fn remove(&mut self, index: usize) -> (outcome: Option<Outcome<W>>)
        requires
            old(self).wf(),
        ensures
            final(self).wf(),
            final(self)@ == (HiveState {
                outcomes: old(self)@.outcomes.remove(index),
                ..old(self)@
            }),
            match outcome {
                Some(outcome) => old(self)@.outcomes.contains_key(index) && outcome == old(
                    self,
                )@.outcomes[index],
                None => !old(self)@.outcomes.contains_key(index),
            },
    {
        remove_outcome(&mut self.outcomes, index)
    }

    /// Keeps `outcome` under the index of its task, in place of an earlier outcome of
    /// that task if there is one.
    pub fn add_outcome(&mut self, outcome: Outcome<W>)
        requires
            old(self).wf(),
        ensures
            final(self).wf(),
            final(self)@ == old(self)@.kept(outcome),
    {
        insert_outcome(&mut self.outcomes, outcome);
    }

    /// Keeps an outcome that could not be sent, and does nothing where there is none.
    pub fn store_unsent(&mut self, unsent: Option<Outcome<W>>)
        requires
            old(self).wf(),
        ensures
            final(self).wf(),
            final(self)@ == (match unsent {
                Some(outcome) => old(self)@.kept(outcome),
                None => old(self)@,
            }),
    {
        if let Some(outcome) = unsent {
            self.add_outcome(outcome);
        }
    }

    /// Sends `outcome` to `outcome_tx`, and keeps it in the hive where there is no sender
    /// or the send fails. Whether a send fails is up to the receiving end: with a sender,
    /// the outcome is either sent and the state stays as it is, or kept.
    pub fn send_or_store_outcome(
        &mut self,
        outcome: Outcome<W>,
        outcome_tx: Option<OutcomeSender<W>>,
    )
        requires
            old(self).wf(),
        ensures
            final(self).wf(),
            final(self)@ == old(self)@.kept(outcome) || (outcome_tx is Some && final(self)@
                == old(self)@),
    {
        let unsent = match outcome_tx {
            Some(tx) => try_send_msg(&tx, outcome),
            None => Some(outcome),
        };
        self.store_unsent(unsent);
    }

    /// Takes every outcome out of the hive.
    pub fn take_outcomes(&mut self) -> (taken: HashMap<usize, Outcome<W>>)
        requires
            old(self).wf(),
        ensures
            final(self).wf(),
            taken@ == old(self)@.outcomes,
            final(self)@ == (HiveState { outcomes: Map::empty(), ..old(self)@ }),
    {
        let mut taken: HashMap<usize, Outcome<W>> = HashMap::new();
        std::mem::swap(&mut self.outcomes, &mut taken);
        taken
    }

    /// Takes the outcomes of the tasks that were never run out of the hive, in no
    /// particular order.
    pub fn take_unprocessed(&mut self) -> (taken: Vec<Outcome<W>>)
        requires
            old(self).wf(),
        ensures
            final(self).wf(),
            lists_chosen(taken@, old(self)@.outcomes, true),
            final(self)@ == (HiveState {
                outcomes: without_chosen(old(self)@.outcomes, true),
                ..old(self)@
            }),
    {
        take_chosen(&mut self.outcomes, true)
    }

    /// Turns each of `tasks` into its `Unprocessed` outcome, sends that to the sender of
    /// the task, and keeps it in the hive where the task has no sender or the send fails.
    /// Returns the indices of the tasks, in their order.
    pub fn send_or_store_as_unprocessed(&mut self, tasks: Vec<Task<W>>) -> (indices: Vec<usize>)
        requires
            old(self).wf(),
        ensures
            final(self).wf(),
            indices@ == indices_of(tasks@),
            drained_into(old(self)@.outcomes, tasks@, final(self)@.outcomes),
            final(self)@ == (HiveState { outcomes: final(self)@.outcomes, ..old(self)@ }),
    {
        let mut indices: Vec<usize> = Vec::new();
        let mut at: usize = 0;
        while at < tasks.len()
            invariant
                at <= tasks.len(),
                indices@ == indices_of(tasks@.take(at as int)),
            decreases tasks.len() - at,
        {
            indices.push(tasks[at].index());
            at = at + 1;
            assert(indices@ =~= indices_of(tasks@.take(at as int)));
        }
        assert(tasks@.take(tasks.len() as int) =~= tasks@);
        send_or_store(tasks, &mut self.outcomes);
        indices
    }

    /// Takes every task that waits, submitted or to be run again, out of its queue and
    /// turns it into its `Unprocessed` outcome, which is sent to the sender of the task, and
    /// kept in the hive where the task has no sender or the send fails. The counts stay as
    /// they are.
    pub fn drain_tasks_into_unprocessed(&mut self)
        requires
            old(self).wf(),
        ensures
            final(self).wf(),
            drained_into(
                old(self)@.outcomes,
                old(self)@.tasks + tasks_of(old(self)@.retries),
                final(self)@.outcomes,
            ),
            final(self)@ == old(self)@.drained(final(self)@.outcomes),
    {
        let ghost before = self@;
        let mut submitted: Vec<Task<W>> = Vec::new();
        assert(before.tasks.skip(0) =~= before.tasks);
        assert(before.tasks.take(0) =~= submitted@);
        loop
            invariant_except_break
                self.wf(),
                self@ == (HiveState {
                    tasks: before.tasks.skip(submitted.len() as int),
                    ..before
                }),
                submitted@ == before.tasks.take(submitted.len() as int),
                submitted.len() <= before.tasks.len(),
            ensures
                self.wf(),
                self@ == (HiveState { tasks: Seq::empty(), ..before }),
                submitted@ == before.tasks,
            decreases self.tasks@.len(),
        {
            let ghost moved = submitted@;
            match self.tasks.pop_front() {
                Some(task) => {
                    submitted.push(task);
                    proof {
                        let rest = before.tasks.skip(moved.len() as int);
                        assert(rest[0] == before.tasks[moved.len() as int]);
                        assert(rest.subrange(1, rest.len() as int) =~= before.tasks.skip(
                            moved.len() as int + 1,
                        ));
                        assert(submitted@ =~= before.tasks.take(moved.len() as int + 1));
                    }
                },
                None => {
                    proof {
                        assert(before.tasks.skip(moved.len() as int).len() == 0);
                        assert(before.tasks.take(moved.len() as int) =~= before.tasks);
                        assert(self.tasks@ =~= Seq::<Task<W>>::empty());
                    }
                    break ;
                },
            }
        }
        send_or_store(submitted, &mut self.outcomes);
        let ghost second = self.outcomes@;
        let retries = self.retry_queue.drain();
        self.update_next_retry(None);
        send_or_store(retries, &mut self.outcomes);
        proof {
            lemma_drained_in_turn(
                before.outcomes,
                before.tasks,
                second,
                tasks_of(before.retries),
                self.outcomes@,
            );
        }
    }

    /// Poisons the hive, for good: it hands out no task from here on. Every task that
    /// waits is turned into its `Unprocessed` outcome, as
    /// [`drain_tasks_into_unprocessed`](Shared::drain_tasks_into_unprocessed) does.
    pub fn poison(&mut self)
        requires
            old(self).wf(),
        ensures
            final(self).wf(),
            drained_into(
                old(self)@.outcomes,
                old(self)@.tasks + tasks_of(old(self)@.retries),
                final(self)@.outcomes,
            ),
            final(self)@ == (HiveState { poisoned: true, ..old(self)@ }).drained(
                final(self)@.outcomes,
            ),
    {
        self.poisoned = true;
        self.drain_tasks_into_unprocessed();
    }

    /// Ends the hive and keeps what is left of it: the settings, as plain values, the
    /// factory, the number of panics, and the outcomes. Every task that waits is turned
    /// into its `Unprocessed` outcome first, which is sent to the sender of the task, and
    /// kept where the task has no sender or the send fails.
    pub fn try_into_husk(self) -> (husk: Husk<W, Q>)
        requires
            self.wf(),
        ensures
            husk.wf(),
            drained_into(
                self@.outcomes,
                self@.tasks + tasks_of(self@.retries),
                husk@.outcomes,
            ),
            husk@ == (HuskState {
                settings: self@.settings,
                queen: self@.queen,
                num_panics: self@.num_panics,
                outcomes: husk@.outcomes,
            }),
            HiveState::<W, Q>::fresh(husk@.settings, husk@.queen).settings == self@.settings,
    {
        proof {
            self.lemma_wf();
        }
        let mut shared = self;
        shared.drain_tasks_into_unprocessed();
        Husk::new(shared.config.into_unsync(), shared.queen, shared.num_panics, shared.outcomes)
    }

    /// Deals with what one run of a task ended in, at the time `now`, and counts the task
    /// as no longer active. `ctx` and `outcome_tx` are those of the task that was run.
    ///
    /// A run that failed with its input handed back is queued for its next run, as
    /// [`queue_retry`](Shared::queue_retry) does, while the task has retries left. Every
    /// other run ends the task: its outcome is sent to the sender of the task, and kept in
    /// the hive where the task has no sender or the send fails. Returns whether the hive is
    /// left without work, in which case those who wait for that have to be woken.
    pub fn handle_attempt(
        &mut self,
        ctx: Context,
        outcome_tx: Option<OutcomeSender<W>>,
        attempt: Attempt<W>,
        now: u64,
    ) -> (idle: bool)
        requires
            old(self).wf(),
            old(self)@.active >= 1,
            verdict(old(self)@.settings.max_retries, ctx, attempt) is Again ==> old(self)@.queued
                < u64::MAX,
        ensures
            final(self).wf(),
            idle == !final(self)@.has_work(),
            match verdict(old(self)@.settings.max_retries, ctx, attempt) {
                Verdict::Again { input } => final(self)@ == requeued(
                    old(self)@,
                    input,
                    ctx,
                    outcome_tx,
                    now,
                ).finished(false),
                Verdict::Ended { outcome } => {
                    ||| final(self)@ == old(self)@.kept(outcome).finished(attempt is Panicked)
                    ||| outcome_tx is Some && final(self)@ == old(self)@.finished(
                        attempt is Panicked,
                    )
                },
            },
    {
        let panicking = attempt.is_panic();
        let index = ctx.index();
        match attempt {
            Attempt::Done { value } => {
                self.send_or_store_outcome(Outcome::Success { index, value }, outcome_tx);
            },
            Attempt::Failed { error } => {
                self.send_or_store_outcome(Outcome::Failure { index, error }, outcome_tx);
            },
            Attempt::Panicked { payload } => {
                self.send_or_store_outcome(Outcome::Panic { index, payload }, outcome_tx);
            },
            Attempt::Retryable { input, error } => {
                if self.can_retry(&ctx) {
                    self.queue_retry(input, ctx, outcome_tx, now);
                } else {
                    self.send_or_store_outcome(
                        Outcome::MaxRetriesAttempted { index, input, last_error: error },
                        outcome_tx,
                    );
                }
            },
        }
        self.finish_task(panicking)
    }
}

/// The name and the stack size of the worker threads of a hive.
#[derive(Debug)]
pub struct ThreadSettings {
    /// The name of the threads, if they are to have one.
    pub name: Option<String>,
    /// The stack size of the threads in bytes, if it is to differ from the usual one.
    pub stack_size: Option<usize>,
}

impl ThreadSettings {
    /// The name of the threads, as a sequence of characters.
    pub open spec fn spec_name(&self) -> Option<Seq<char>> {
        match self.name {
            Some(name) => Some(name@),
            None => None,
        }
    }
}

/// Turns each of `tasks` into its `Unprocessed` outcome, sends that to the sender of the
/// task, and keeps it in `outcomes` where the task has no sender or the send fails.
pub fn send_or_store<W: Worker>(tasks: Vec<Task<W>>, outcomes: &mut HashMap<usize, Outcome<W>>)
    ensures
        drained_into(old(outcomes)@, tasks@, final(outcomes)@),
        keyed_by_index(old(outcomes)@) ==> keyed_by_index(final(outcomes)@),
{
    let ghost before = outcomes@;
    let ghost all = tasks@;
    let ghost mut unsent: Seq<bool> = Seq::empty();
    for task in it: tasks
        invariant
            it.seq() == all,
            unsent.len() == it.index(),
            forall|i: int| 0 <= i < it.index() && (#[trigger] all[i]).outcome_tx is None ==> unsent[i],
            outcomes@ == with_unprocessed(before, all.take(it.index() as int), unsent),
    {
        let ghost seen = all.take(it.index() as int);
        let ghost marks = unsent;
        let came_back = task.into_unprocessed_try_send();
        proof {
            unsent = marks.push(came_back is Some);
            assert(all.take(it.index() + 1).drop_last() =~= seen);
            assert(unsent.drop_last() =~= marks);
            assert(all.take(it.index() + 1).last() == task);
        }
        if let Some(outcome) = came_back {
            insert_outcome(outcomes, outcome);
        }
    }
    proof {
        assert(all.take(all.len() as int) =~= all);
        assert(may_be_unsent(all, unsent));
        if keyed_by_index(before) {
            lemma_with_unprocessed_keyed(before, all, unsent);
        }
    }
}

} // verus!
