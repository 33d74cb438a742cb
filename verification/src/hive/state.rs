//! What the state of a hive holds, and what each step does to it, as plain mathematics.

use crate::atomic::option_cloned;
use crate::bee::{Attempt, Context, Worker};
use crate::hive::config::Settings;
use crate::hive::counter::transfer_verdict;
use crate::hive::outcome::store::keyed_by_index;
use crate::hive::outcome::Outcome;
use crate::hive::retry::{by_deadline, deadline_of, retry_delay, slot_for};
use crate::hive::shared::NextTaskError;
use crate::hive::task::{OutcomeSender, Task};
use vstd::prelude::*;

verus! {

/// What the state of a hive holds, as plain mathematical values.
#[verifier::reject_recursive_types(W)]
pub struct HiveState<W: Worker, Q> {
    /// The settings of the hive.
    pub settings: Settings,
    /// The factory of the workers.
    pub queen: Q,
    /// The tasks that were submitted and not yet taken by a worker, the oldest first.
    pub tasks: Seq<Task<W>>,
    /// The tasks that failed and wait for their next run, each with the time from which it
    /// may run, the earliest first.
    pub retries: Seq<(u64, Task<W>)>,
    /// The number of tasks that are counted as waiting to be run.
    pub queued: nat,
    /// The number of tasks that are counted as being run.
    pub active: nat,
    /// The index that the next task will be given.
    pub next_task_index: nat,
    /// The number of runs that ended in a panic.
    pub num_panics: usize,
    /// The number of handles of the hive.
    pub num_referrers: usize,
    /// Whether the hive has been poisoned.
    pub poisoned: bool,
    /// Whether the hive is suspended.
    pub suspended: bool,
    /// The outcomes that the hive keeps.
    pub outcomes: Map<usize, Outcome<W>>,
}

impl<W: Worker, Q> HiveState<W, Q> {
    /// Whether the hive has work to do: it is not poisoned, and a task is being run, or a
    /// task is queued and the hive is not suspended.
    pub open spec fn has_work(self) -> bool {
        !self.poisoned && (self.active > 0 || (!self.suspended && self.queued > 0))
    }

    /// The state of a new hive with the settings `settings` and the factory `queen`:
    /// nothing is queued, nothing is kept, and one handle exists. A hive of which the
    /// number of threads was not set has none.
    pub open spec fn fresh(settings: Settings, queen: Q) -> Self {
        HiveState {
            settings: Settings {
                num_threads: Some(
                    match settings.num_threads {
                        Some(n) => n,
                        None => 0,
                    },
                ),
                ..settings
            },
            queen,
            tasks: Seq::empty(),
            retries: Seq::empty(),
            queued: 0,
            active: 0,
            next_task_index: 0,
            num_panics: 0,
            num_referrers: 1,
            poisoned: false,
            suspended: false,
            outcomes: Map::empty(),
        }
    }

    /// This state when `tasks` have been counted, numbered and queued.
    pub open spec fn submitted(self, tasks: Seq<Task<W>>) -> Self {
        HiveState {
            tasks: self.tasks + tasks,
            queued: self.queued + tasks.len(),
            next_task_index: self.next_task_index + tasks.len(),
            ..self
        }
    }

    /// This state when `outcome` is kept in the hive.
    pub open spec fn kept(self, outcome: Outcome<W>) -> Self {
        HiveState { outcomes: self.outcomes.insert(outcome.spec_index(), outcome), ..self }
    }

    /// This state when a worker has finished with a task, in a panic or not.
    pub open spec fn finished(self, panicking: bool) -> Self {
        HiveState {
            active: (self.active - 1) as nat,
            num_panics: if panicking {
                self.num_panics.wrapping_add(1)
            } else {
                self.num_panics
            },
            ..self
        }
    }

    /// This state when every task that waits has been taken out of its queue, and the
    /// hive keeps `outcomes`.
    pub open spec fn drained(self, outcomes: Map<usize, Outcome<W>>) -> Self {
        HiveState { tasks: Seq::empty(), retries: Seq::empty(), outcomes, ..self }
    }

    /// This state with the number of threads set to `num_threads`.
    pub open spec fn with_threads(self, num_threads: usize) -> Self {
        HiveState { settings: Settings { num_threads: Some(num_threads), ..self.settings }, ..self }
    }

    /// What every state of a hive keeps to: the retries are ordered by time, and every
    /// outcome is kept under the index of its task.
    pub open spec fn wf(self) -> bool {
        &&& by_deadline(self.retries)
        &&& keyed_by_index(self.outcomes)
        &&& self.settings.num_threads is Some
        &&& self.queued <= u64::MAX
        &&& self.active <= u64::MAX
        &&& self.next_task_index <= usize::MAX
    }
}

/// What [`Shared::next_task`] returns in the state `state` at the time `now`, but for the
/// task itself.
pub enum Fetch {
    /// No task can be taken now: the hive is suspended, or nothing is queued.
    Wait,
    /// The first retry has come due and is taken.
    Retry,
    /// The oldest submitted task is taken.
    Fresh,
    /// The worker has to end.
    Stop(NextTaskError),
}

/// Which task a worker takes in `state` at the time `now`, before the counts are moved.
pub open spec fn fetch<W: Worker, Q>(state: HiveState<W, Q>, now: u64) -> Fetch {
    if state.suspended {
        Fetch::Wait
    } else if state.poisoned {
        Fetch::Stop(NextTaskError::Poisoned)
    } else if state.retries.len() > 0 && state.retries[0].0 <= now {
        Fetch::Retry
    } else if state.tasks.len() > 0 {
        Fetch::Fresh
    } else if state.num_referrers == 0 {
        Fetch::Stop(NextTaskError::Disconnected)
    } else {
        Fetch::Wait
    }
}

/// What a worker that asks for a task in the state `state` at the time `now` is given.
pub open spec fn handed<W: Worker, Q>(state: HiveState<W, Q>, now: u64) -> Result<
    Option<Task<W>>,
    NextTaskError,
> {
    match fetch(state, now) {
        Fetch::Wait => Ok(None),
        Fetch::Stop(error) => Err(error),
        Fetch::Retry => counted(state, state.retries[0].1),
        Fetch::Fresh => counted(state, state.tasks[0]),
    }
}

/// The state `state` when a worker has asked for a task at the time `now`.
pub open spec fn fetched<W: Worker, Q>(state: HiveState<W, Q>, now: u64) -> HiveState<W, Q> {
    match fetch(state, now) {
        Fetch::Wait => state,
        Fetch::Stop(_) => state,
        Fetch::Retry => moved(HiveState { retries: state.retries.drop_first(), ..state }),
        Fetch::Fresh => moved(HiveState { tasks: state.tasks.drop_first(), ..state }),
    }
}

/// What a worker gets when it has taken `task` in the state `state`: the task, or the
/// error that the counts gave.
pub open spec fn counted<W: Worker, Q>(state: HiveState<W, Q>, task: Task<W>) -> Result<
    Option<Task<W>>,
    NextTaskError,
> {
    match transfer_verdict(state.queued, state.active, 1) {
        Ok(()) => Ok(Some(task)),
        Err(error) => Err(NextTaskError::InvalidCounter(error)),
    }
}

/// The state `state` with one task moved from queued to active, where the counts allow
/// it, and as it is where they do not.
pub open spec fn moved<W: Worker, Q>(state: HiveState<W, Q>) -> HiveState<W, Q> {
    match transfer_verdict(state.queued, state.active, 1) {
        Ok(()) => HiveState {
            queued: (state.queued - 1) as nat,
            active: state.active + 1,
            ..state
        },
        Err(_) => state,
    }
}

/// What becomes of a task after one run.
pub enum Verdict<W: Worker> {
    /// The task is run again, on the input that the run handed back.
    Again { input: W::Input },
    /// The task has ended in `outcome`.
    Ended { outcome: Outcome<W> },
}

/// What becomes of a task with the context `ctx` of which a run ended in `attempt`, in a
/// hive that allows `max_retries` retries. A run that returned a value, returned an error
/// for good or panicked ends the task in the outcome of that name. A run that failed with
/// its input handed back is repeated while the task has retries left, and ends the task
/// in `MaxRetriesAttempted` when it has none.
pub open spec fn verdict<W: Worker>(
    max_retries: Option<u32>,
    ctx: Context,
    attempt: Attempt<W>,
) -> Verdict<W> {
    match attempt {
        Attempt::Done { value } => Verdict::Ended {
            outcome: Outcome::Success { index: ctx.index, value },
        },
        Attempt::Failed { error } => Verdict::Ended {
            outcome: Outcome::Failure { index: ctx.index, error },
        },
        Attempt::Panicked { payload } => Verdict::Ended {
            outcome: Outcome::Panic { index: ctx.index, payload },
        },
        Attempt::Retryable { input, error } => if retries_left(max_retries, ctx.attempt) {
            Verdict::Again { input }
        } else {
            Verdict::Ended {
                outcome: Outcome::MaxRetriesAttempted { index: ctx.index, input, last_error: error },
            }
        },
    }
}

/// Whether a task that has failed `attempt` times before the run that just failed is run
/// once more, in a hive that allows `max_retries` retries.
pub open spec fn retries_left(max_retries: Option<u32>, attempt: u32) -> bool {
    match max_retries {
        Some(max_retries) => attempt < max_retries,
        None => false,
    }
}

/// The state `state` when a task that failed at the time `now`, in a run with the context
/// `ctx`, is queued for its next run.
pub open spec fn requeued<W: Worker, Q>(
    state: HiveState<W, Q>,
    input: W::Input,
    ctx: Context,
    outcome_tx: Option<OutcomeSender<W>>,
    now: u64,
) -> HiveState<W, Q> {
    let deadline = deadline_of(now, retry_delay(state.settings.retry_factor, ctx.attempt));
    let task = Task::<W> {
        input,
        ctx: Context { attempt: (ctx.attempt + 1) as u32, ..ctx },
        outcome_tx,
    };
    HiveState {
        queued: state.queued + 1,
        retries: state.retries.insert(slot_for(state.retries, deadline), (deadline, task)),
        ..state
    }
}

/// The tasks that one submission of `inputs` queues in a hive of which the next index is
/// `next_task_index`: they hold the inputs in their order, are numbered from
/// `next_task_index` on, have not been run, and have a sender where the submission has
/// one.
pub open spec fn submission_of<W: Worker>(
    tasks: Seq<Task<W>>,
    next_task_index: nat,
    inputs: Seq<W::Input>,
    outcome_tx: Option<OutcomeSender<W>>,
) -> bool {
    &&& tasks.len() == inputs.len()
    &&& forall|i: int|
        0 <= i < tasks.len() ==> {
            &&& (#[trigger] tasks[i]).input == inputs[i]
            &&& tasks[i].ctx == (Context { index: (next_task_index + i) as usize, attempt: 0 })
            &&& option_cloned(outcome_tx, tasks[i].outcome_tx)
        }
}

/// The indices from `first` on, `count` of them.
pub open spec fn indices_from(first: nat, count: nat) -> Seq<usize> {
    Seq::new(count, |i: int| (first + i) as usize)
}

/// The indices of `tasks`, in their order.
pub open spec fn indices_of<W: Worker>(tasks: Seq<Task<W>>) -> Seq<usize> {
    Seq::new(tasks.len(), |i: int| tasks[i].spec_index())
}

/// Whether `unsent` can say of each of `tasks` if its outcome came back unsent: one mark
/// for each task, and a task without a sender is marked.
pub open spec fn may_be_unsent<W: Worker>(tasks: Seq<Task<W>>, unsent: Seq<bool>) -> bool {
    &&& unsent.len() == tasks.len()
    &&& forall|i: int| 0 <= i < tasks.len() && (#[trigger] tasks[i]).outcome_tx is None ==> unsent[i]
}

/// `outcomes` with the `Unprocessed` outcomes of those of `tasks` that `unsent` marks, kept
/// in the order of the tasks, each under the index of its task.
pub open spec fn with_unprocessed<W: Worker>(
    outcomes: Map<usize, Outcome<W>>,
    tasks: Seq<Task<W>>,
    unsent: Seq<bool>,
) -> Map<usize, Outcome<W>>
    decreases tasks.len(),
{
    if tasks.len() == 0 {
        outcomes
    } else {
        let earlier = with_unprocessed(outcomes, tasks.drop_last(), unsent.drop_last());
        if unsent.last() {
            earlier.insert(tasks.last().spec_index(), tasks.last().unprocessed())
        } else {
            earlier
        }
    }
}

/// Whether `after` is what `before` can become when `tasks` are turned into their
/// `Unprocessed` outcomes: each outcome was either sent, which only a task with a sender
/// allows, or is kept in `after`.
pub open spec fn drained_into<W: Worker>(
    before: Map<usize, Outcome<W>>,
    tasks: Seq<Task<W>>,
    after: Map<usize, Outcome<W>>,
) -> bool {
    exists|unsent: Seq<bool>| #[trigger]
        may_be_unsent(tasks, unsent) && after == with_unprocessed(before, tasks, unsent)
}

/// Keeping the outcomes of tasks leaves every outcome under the index of its task.
pub proof fn lemma_with_unprocessed_keyed<W: Worker>(
    outcomes: Map<usize, Outcome<W>>,
    tasks: Seq<Task<W>>,
    unsent: Seq<bool>,
)
    requires
        keyed_by_index(outcomes),
    ensures
        keyed_by_index(with_unprocessed(outcomes, tasks, unsent)),
    decreases tasks.len(),
{
    if tasks.len() > 0 {
        lemma_with_unprocessed_keyed(outcomes, tasks.drop_last(), unsent.drop_last());
    }
}

/// Draining one run of tasks and then another is draining the two runs as one.
pub proof fn lemma_drained_in_turn<W: Worker>(
    before: Map<usize, Outcome<W>>,
    first: Seq<Task<W>>,
    between: Map<usize, Outcome<W>>,
    second: Seq<Task<W>>,
    after: Map<usize, Outcome<W>>,
)
    requires
        drained_into(before, first, between),
        drained_into(between, second, after),
    ensures
        drained_into(before, first + second, after),
{
    let marks_first = choose|unsent: Seq<bool>| #[trigger]
        may_be_unsent(first, unsent) && between == with_unprocessed(before, first, unsent);
    let marks_second = choose|unsent: Seq<bool>| #[trigger]
        may_be_unsent(second, unsent) && after == with_unprocessed(between, second, unsent);
    lemma_with_unprocessed_joined(before, first, marks_first, second, marks_second);
    assert(may_be_unsent(first + second, marks_first + marks_second));
}

/// Keeping the outcomes of one run of tasks and then of another is keeping those of the
/// two runs as one.
proof fn lemma_with_unprocessed_joined<W: Worker>(
    outcomes: Map<usize, Outcome<W>>,
    first: Seq<Task<W>>,
    marks_first: Seq<bool>,
    second: Seq<Task<W>>,
    marks_second: Seq<bool>,
)
    requires
        marks_first.len() == first.len(),
        marks_second.len() == second.len(),
    ensures
        with_unprocessed(with_unprocessed(outcomes, first, marks_first), second, marks_second)
            == with_unprocessed(outcomes, first + second, marks_first + marks_second),
    decreases second.len(),
{
    if second.len() == 0 {
        assert(first + second =~= first);
        assert(marks_first + marks_second =~= marks_first);
    } else {
        lemma_with_unprocessed_joined(
            outcomes,
            first,
            marks_first,
            second.drop_last(),
            marks_second.drop_last(),
        );
        assert((first + second).drop_last() =~= first + second.drop_last());
        assert((marks_first + marks_second).drop_last() =~= marks_first + marks_second.drop_last());
        assert((first + second).last() == second.last());
        assert((marks_first + marks_second).last() == marks_second.last());
    }
}

} // verus!
