//! What holds of every course that the state of a hive can take.
//!
//! A course is a sequence of steps. Each step is what one operation of the hive does to its
//! state, in the words in which the operation itself states it; an operation that does
//! several things takes several steps.

use crate::bee::{Attempt, Context, Worker};
use crate::hive::config::Settings;
use crate::hive::outcome::Outcome;
use crate::hive::state::{fetch, fetched, requeued, verdict, HiveState, Verdict};
use crate::hive::task::{OutcomeSender, Task};
use vstd::prelude::*;

verus! {

/// One step in the life of a hive.
#[verifier::reject_recursive_types(W)]
pub enum Step<W: Worker, Q> {
    /// `count` tasks are counted as queued and numbered, as `Shared::prepare_task` and
    /// `Shared::prepare_batch` do.
    Prepare { count: nat },
    /// A task is put at the end of the queue, as `Shared::push_task` does.
    Push { task: Task<W> },
    /// Tasks are counted, numbered and queued: one submission through a `Hive`.
    Submit { tasks: Seq<Task<W>> },
    /// A worker asks for a task at the time `now`, as `Shared::next_task` does.
    Take { now: u64 },
    /// An outcome is kept in the hive, as `Shared::add_outcome` does, and the operations
    /// that send an outcome or keep it when it is not sent.
    Keep { outcome: Outcome<W> },
    /// A task that failed is queued for its next run, as `Shared::queue_retry` does.
    Requeue { input: W::Input, ctx: Context, outcome_tx: Option<OutcomeSender<W>>, now: u64 },
    /// A worker finishes with a task, as `Shared::finish_task` does. `Shared::handle_attempt`
    /// takes this step after it has kept the outcome or queued the task again.
    Finish { panicking: bool },
    /// The hive is suspended.
    Suspend,
    /// The hive is let go on.
    Resume,
    /// The hive is poisoned, its queues are emptied, and it keeps `outcomes`, as
    /// `Shared::poison` does.
    Poison { outcomes: Map<usize, Outcome<W>> },
    /// The queues of the hive are emptied, and it keeps `outcomes`, as
    /// `Shared::drain_tasks_into_unprocessed` does.
    Drain { outcomes: Map<usize, Outcome<W>> },
    /// Outcomes are taken out of the hive, as `Shared::take_outcomes` and
    /// `Shared::take_unprocessed` do; it keeps `outcomes`.
    Forget { outcomes: Map<usize, Outcome<W>> },
    /// The settings of the hive are changed to `settings`: the number of threads or the
    /// cores.
    Tune { settings: Settings },
    /// The number of handles of the hive changes to `num_referrers`.
    Handles { num_referrers: usize },
    /// The factory makes a worker, and is `queen` after that.
    Create { queen: Q },
}

/// Whether the step `step` can be taken in the state `state`: a worker can only finish
/// with a task that is counted as active.
pub open spec fn enabled<W: Worker, Q>(state: HiveState<W, Q>, step: Step<W, Q>) -> bool {
    step is Finish ==> state.active >= 1
}

/// The state `state` after the step `step`.
pub open spec fn after<W: Worker, Q>(state: HiveState<W, Q>, step: Step<W, Q>) -> HiveState<
    W,
    Q,
> {
    match step {
        Step::Prepare { count } => HiveState {
            queued: state.queued + count,
            next_task_index: state.next_task_index + count,
            ..state
        },
        Step::Push { task } => HiveState { tasks: state.tasks.push(task), ..state },
        Step::Submit { tasks } => state.submitted(tasks),
        Step::Take { now } => fetched(state, now),
        Step::Keep { outcome } => state.kept(outcome),
        Step::Requeue { input, ctx, outcome_tx, now } => requeued(
            state,
            input,
            ctx,
            outcome_tx,
            now,
        ),
        Step::Finish { panicking } => state.finished(panicking),
        Step::Suspend => HiveState { suspended: true, ..state },
        Step::Resume => HiveState { suspended: false, ..state },
        Step::Poison { outcomes } => (HiveState { poisoned: true, ..state }).drained(outcomes),
        Step::Drain { outcomes } => state.drained(outcomes),
        Step::Forget { outcomes } => HiveState { outcomes, ..state },
        Step::Tune { settings } => HiveState { settings, ..state },
        Step::Handles { num_referrers } => HiveState { num_referrers, ..state },
        Step::Create { queen } => HiveState { queen, ..state },
    }
}

/// The state `start` after the steps `steps`, taken in their order.
pub open spec fn run<W: Worker, Q>(start: HiveState<W, Q>, steps: Seq<Step<W, Q>>) -> HiveState<
    W,
    Q,
>
    decreases steps.len(),
{
    if steps.len() == 0 {
        start
    } else {
        after(run(start, steps.drop_last()), steps.last())
    }
}

/// Whether each of `steps` can be taken in the state that the steps before it lead to.
pub open spec fn allowed<W: Worker, Q>(start: HiveState<W, Q>, steps: Seq<Step<W, Q>>) -> bool
    decreases steps.len(),
{
    steps.len() > 0 ==> allowed(start, steps.drop_last()) && enabled(
        run(start, steps.drop_last()),
        steps.last(),
    )
}

/// The number of tasks that are counted and numbered in `steps`: what has been submitted.
pub open spec fn submitted<W: Worker, Q>(steps: Seq<Step<W, Q>>) -> nat
    decreases steps.len(),
{
    if steps.len() == 0 {
        0
    } else {
        submitted(steps.drop_last()) + (match steps.last() {
            Step::Prepare { count } => count,
            Step::Submit { tasks } => tasks.len(),
            _ => 0,
        })
    }
}

/// The number of times that a task is queued for another run in `steps`.
pub open spec fn requeues<W: Worker, Q>(steps: Seq<Step<W, Q>>) -> nat
    decreases steps.len(),
{
    if steps.len() == 0 {
        0
    } else {
        requeues(steps.drop_last()) + (if steps.last() is Requeue {
            1nat
        } else {
            0nat
        })
    }
}

/// The number of runs that workers finish with in `steps`.
pub open spec fn finishes<W: Worker, Q>(steps: Seq<Step<W, Q>>) -> nat
    decreases steps.len(),
{
    if steps.len() == 0 {
        0
    } else {
        finishes(steps.drop_last()) + (if steps.last() is Finish {
            1nat
        } else {
            0nat
        })
    }
}

/// The number of tasks that have come to their end in `steps`: a worker has finished with
/// them, and they were not queued for another run.
pub open spec fn completed<W: Worker, Q>(steps: Seq<Step<W, Q>>) -> int {
    finishes(steps) - requeues(steps)
}

/// Whether no task is counted as queued in `steps`: none is submitted, and none is queued
/// for another run.
pub open spec fn without_submission<W: Worker, Q>(steps: Seq<Step<W, Q>>) -> bool {
    forall|i: int|
        0 <= i < steps.len() ==> !(#[trigger] steps[i] is Submit) && !(steps[i] is Prepare) && !(
        steps[i] is Requeue)
}

/// Whether none of `steps` lets the hive go on.
pub open spec fn without_resume<W: Worker, Q>(steps: Seq<Step<W, Q>>) -> bool {
    forall|i: int| 0 <= i < steps.len() ==> !(#[trigger] steps[i] is Resume)
}

/// The counts balance: at every time, the tasks that are counted as queued or active are
/// those that were submitted and have not come to their end. Emptying the queues does not
/// change the counts, so a task that was taken out of its queue unrun stays counted as
/// queued.
pub proof fn lemma_counts_balance<W: Worker, Q>(start: HiveState<W, Q>, steps: Seq<Step<W, Q>>)
    requires
        allowed(start, steps),
    ensures
        run(start, steps).queued + run(start, steps).active == start.queued + start.active
            + submitted(steps) - completed(steps),
    decreases steps.len(),
{
    if steps.len() > 0 {
        lemma_counts_balance(start, steps.drop_last());
    }
}

/// The index that the next task is given never goes back, moves on with every task that
/// is submitted, and counts the tasks that were submitted.
pub proof fn lemma_next_task_index_counts<W: Worker, Q>(
    start: HiveState<W, Q>,
    steps: Seq<Step<W, Q>>,
)
    ensures
        run(start, steps).next_task_index == start.next_task_index + submitted(steps),
        forall|n: int|
            0 <= n <= steps.len() ==> run(start, #[trigger] steps.take(n)).next_task_index <= run(
                start,
                steps,
            ).next_task_index,
    decreases steps.len(),
{
    if steps.len() > 0 {
        let earlier = steps.drop_last();
        lemma_next_task_index_counts(start, earlier);
        assert forall|n: int| 0 <= n <= steps.len() implies run(
            start,
            #[trigger] steps.take(n),
        ).next_task_index <= run(start, steps).next_task_index by {
            if n == steps.len() {
                assert(steps.take(n) =~= steps);
            } else {
                assert(steps.take(n) =~= earlier.take(n));
            }
        }
    } else {
        assert forall|n: int| 0 <= n <= steps.len() implies run(
            start,
            #[trigger] steps.take(n),
        ).next_task_index <= run(start, steps).next_task_index by {
            assert(steps.take(n) =~= steps);
        }
    }
}

/// A poisoned hive stays poisoned, and no worker is handed a task in it: whatever is
/// submitted to it, the only runs that workers finish with are those of tasks that were
/// active when it was poisoned.
pub proof fn lemma_poisoned_for_good<W: Worker, Q>(
    start: HiveState<W, Q>,
    steps: Seq<Step<W, Q>>,
)
    requires
        start.poisoned,
        allowed(start, steps),
    ensures
        run(start, steps).poisoned,
        run(start, steps).active + finishes(steps) == start.active,
        forall|now: u64|
            !(#[trigger] fetch(run(start, steps), now) is Fresh) && !(fetch(
                run(start, steps),
                now,
            ) is Retry),
    decreases steps.len(),
{
    if steps.len() > 0 {
        lemma_poisoned_for_good(start, steps.drop_last());
    }
}

/// While a hive is suspended, no task goes from queued to active: the number of active
/// tasks only falls, by the runs that workers finish with.
pub proof fn lemma_suspended_takes_nothing<W: Worker, Q>(
    start: HiveState<W, Q>,
    steps: Seq<Step<W, Q>>,
)
    requires
        start.suspended,
        without_resume(steps),
        allowed(start, steps),
    ensures
        run(start, steps).suspended,
        run(start, steps).active + finishes(steps) == start.active,
        forall|now: u64| #[trigger] fetch(run(start, steps), now) is Wait,
    decreases steps.len(),
{
    if steps.len() > 0 {
        let earlier = steps.drop_last();
        assert(without_resume(earlier)) by {
            assert forall|i: int| 0 <= i < earlier.len() implies !(
            #[trigger] earlier[i] is Resume) by {
                assert(earlier[i] == steps[i]);
            }
        }
        lemma_suspended_takes_nothing(start, earlier);
        assert(!(steps[steps.len() - 1] is Resume));
    }
}

/// A hive that is done stays done until a task is submitted. This is said of a hive that
/// was not suspended with tasks counted as queued: such a hive is done, and has work again
/// as soon as it is let go on.
pub proof fn lemma_done_until_submission<W: Worker, Q>(
    start: HiveState<W, Q>,
    steps: Seq<Step<W, Q>>,
)
    requires
        !start.has_work(),
        start.poisoned || !start.suspended || start.queued == 0,
        without_submission(steps),
        allowed(start, steps),
    ensures
        !run(start, steps).has_work(),
    decreases steps.len(),
{
    lemma_done_stays_empty(start, steps);
}

/// A hive that is done and has nothing counted as queued, or is poisoned, stays so until a
/// task is submitted.
proof fn lemma_done_stays_empty<W: Worker, Q>(start: HiveState<W, Q>, steps: Seq<Step<W, Q>>)
    requires
        !start.has_work(),
        start.poisoned || !start.suspended || start.queued == 0,
        without_submission(steps),
        allowed(start, steps),
    ensures
        run(start, steps).poisoned || (run(start, steps).queued == 0 && run(start, steps).active
            == 0),
    decreases steps.len(),
{
    if steps.len() > 0 {
        let earlier = steps.drop_last();
        assert(without_submission(earlier)) by {
            assert forall|i: int| 0 <= i < earlier.len() implies !(
            #[trigger] earlier[i] is Submit) && !(earlier[i] is Prepare) && !(
            earlier[i] is Requeue) by {
                assert(earlier[i] == steps[i]);
            }
        }
        lemma_done_stays_empty(start, earlier);
        assert(!(steps[steps.len() - 1] is Submit));
    }
}

/// A task that fails in every run is run again as many times as the hive allows retries,
/// and ends in `MaxRetriesAttempted`, with the error of its last run, when it fails once
/// more. Had the hive allowed one retry more, the task would have been run again then,
/// and a value returned by that run would have ended it in `Success`.
pub proof fn lemma_retries_run_out<W: Worker>(
    max_retries: u32,
    index: usize,
    input: W::Input,
    error: W::Error,
    value: W::Output,
)
    requires
        max_retries < u32::MAX,
    ensures
        forall|failures: u32|
            failures < max_retries ==> #[trigger] verdict(
                Some(max_retries),
                Context { index, attempt: failures },
                Attempt::<W>::Retryable { input, error },
            ) == (Verdict::<W>::Again { input }),
        verdict(
            Some(max_retries),
            Context { index, attempt: max_retries },
            Attempt::<W>::Retryable { input, error },
        ) == (Verdict::<W>::Ended {
            outcome: Outcome::MaxRetriesAttempted { index, input, last_error: error },
        }),
        verdict(
            Some((max_retries + 1) as u32),
            Context { index, attempt: max_retries },
            Attempt::<W>::Retryable { input, error },
        ) == (Verdict::<W>::Again { input }),
        verdict(
            Some((max_retries + 1) as u32),
            Context { index, attempt: (max_retries + 1) as u32 },
            Attempt::<W>::Done { value },
        ) == (Verdict::<W>::Ended { outcome: Outcome::Success { index, value } }),
{
}

} // verus!
