//! Where every task of a hive is, at every time.
//!
//! A task that was submitted waits in a queue, is held by a worker, or has ended. The
//! ledger of a hive says which tasks the workers hold and which outcome each task that
//! has ended was given; what waits is in the state of the hive itself. This module follows
//! a hive and its ledger through the moves of an orderly life, in which every task is
//! submitted through a handle of the hive and every worker deals once with each task it
//! was handed, and shows that no task is ever lost or ended twice.

use crate::bee::{Attempt, Context, Worker};
use crate::hive::outcome::Outcome;
use crate::hive::shared::NextTaskError;
use crate::hive::retry::{deadline_of, lemma_slot_for_bounds, retry_delay, slot_for, tasks_of};
use crate::hive::state::{
    fetch, fetched, handed, requeued, verdict, with_unprocessed, Fetch, HiveState, Verdict,
};
use crate::hive::task::{OutcomeSender, Task};
use vstd::prelude::*;

verus! {

/// What has become of the tasks of a hive that are in no queue.
#[verifier::reject_recursive_types(W)]
pub struct Ledger<W: Worker> {
    /// The indices of the tasks that workers hold.
    pub in_flight: Set<usize>,
    /// The outcome that each task that has ended was given, whether it was sent or kept.
    pub ended: Map<usize, Outcome<W>>,
}

/// One move in the orderly life of a hive.
#[verifier::reject_recursive_types(W)]
pub enum Move<W: Worker> {
    /// Tasks are submitted through a handle of the hive.
    Submit { tasks: Seq<Task<W>> },
    /// A worker asks for a task at the time `now`.
    Take { now: u64 },
    /// A worker deals with what a run of a task that it holds ended in: the task is queued
    /// for its next run, or ends in an outcome, which is kept in the hive or was sent.
    Handle {
        ctx: Context,
        outcome_tx: Option<OutcomeSender<W>>,
        attempt: Attempt<W>,
        kept: bool,
        now: u64,
    },
    /// The queues of the hive are emptied, and the hive is poisoned or not. Every task that
    /// waited ends as `Unprocessed`; `unsent` marks those of which the outcome is kept.
    Drain { unsent: Seq<bool>, poison: bool },
    /// The hive is suspended.
    Suspend,
    /// The hive is let go on.
    Resume,
}

/// The tasks that wait in the state `state`: the submitted ones, and then those that are to
/// be run again.
pub open spec fn waiting<W: Worker, Q>(state: HiveState<W, Q>) -> Seq<Task<W>> {
    state.tasks + tasks_of(state.retries)
}

/// Whether the task with the index `index` waits in `tasks`.
pub open spec fn among<W: Worker>(tasks: Seq<Task<W>>, index: usize) -> bool {
    exists|k: int| 0 <= k < tasks.len() && (#[trigger] tasks[k]).spec_index() == index
}

/// Whether no two of `tasks` have the same index.
pub open spec fn distinct<W: Worker>(tasks: Seq<Task<W>>) -> bool {
    forall|j: int, k: int|
        0 <= j < k < tasks.len() ==> (#[trigger] tasks[j]).spec_index() != (
        #[trigger] tasks[k]).spec_index()
}

/// Whether `tasks` are numbered from `first` on, in their order.
pub open spec fn numbered_from<W: Worker>(tasks: Seq<Task<W>>, first: nat) -> bool {
    forall|k: int| 0 <= k < tasks.len() ==> (#[trigger] tasks[k]).spec_index() == first + k
}

/// Whether the move `m` is in order in the state `state` with the ledger `ledger`:
/// submitted tasks are numbered from the next index on, a worker deals only with a task
/// that it holds, and the counts and indices stay within what the machine can hold.
pub open spec fn orderly<W: Worker, Q>(
    state: HiveState<W, Q>,
    ledger: Ledger<W>,
    m: Move<W>,
) -> bool {
    match m {
        Move::Submit { tasks } => numbered_from(tasks, state.next_task_index)
            && state.next_task_index + tasks.len() <= usize::MAX,
        Move::Take { now } => state.active < u64::MAX,
        Move::Handle { ctx, .. } => ledger.in_flight.contains(ctx.index) && state.active >= 1,
        Move::Drain { unsent, .. } => unsent.len() == waiting(state).len(),
        _ => true,
    }
}

/// The state `state` after the move `m`.
pub open spec fn state_after<W: Worker, Q>(state: HiveState<W, Q>, m: Move<W>) -> HiveState<
    W,
    Q,
> {
    match m {
        Move::Submit { tasks } => state.submitted(tasks),
        Move::Take { now } => fetched(state, now),
        Move::Handle { ctx, outcome_tx, attempt, kept, now } => match verdict(
            state.settings.max_retries,
            ctx,
            attempt,
        ) {
            Verdict::Again { input } => requeued(state, input, ctx, outcome_tx, now).finished(
                false,
            ),
            Verdict::Ended { outcome } => if kept {
                state.kept(outcome).finished(attempt is Panicked)
            } else {
                state.finished(attempt is Panicked)
            },
        },
        Move::Drain { unsent, poison } => (HiveState {
            poisoned: state.poisoned || poison,
            ..state
        }).drained(with_unprocessed(state.outcomes, waiting(state), unsent)),
        Move::Suspend => HiveState { suspended: true, ..state },
        Move::Resume => HiveState { suspended: false, ..state },
    }
}

/// `ended` with the `Unprocessed` outcome of each of `tasks`.
pub open spec fn ended_unprocessed<W: Worker>(
    ended: Map<usize, Outcome<W>>,
    tasks: Seq<Task<W>>,
) -> Map<usize, Outcome<W>> {
    Map::new(
        |index: usize| ended.contains_key(index) || among(tasks, index),
        |index: usize|
            if ended.contains_key(index) {
                ended[index]
            } else {
                Outcome::Unprocessed {
                    index,
                    input: tasks[choose|k: int|
                        0 <= k < tasks.len() && (#[trigger] tasks[k]).spec_index() == index].input,
                }
            },
    )
}

/// The ledger `ledger` after the move `m`, which is made in the state `state`.
pub open spec fn ledger_after<W: Worker, Q>(
    state: HiveState<W, Q>,
    ledger: Ledger<W>,
    m: Move<W>,
) -> Ledger<W> {
    match m {
        Move::Take { now } => match handed(state, now) {
            Ok(Some(task)) => Ledger {
                in_flight: ledger.in_flight.insert(task.spec_index()),
                ..ledger
            },
            _ => ledger,
        },
        Move::Handle { ctx, attempt, .. } => match verdict(
            state.settings.max_retries,
            ctx,
            attempt,
        ) {
            Verdict::Again { .. } => Ledger {
                in_flight: ledger.in_flight.remove(ctx.index),
                ..ledger
            },
            Verdict::Ended { outcome } => Ledger {
                in_flight: ledger.in_flight.remove(ctx.index),
                ended: ledger.ended.insert(ctx.index, outcome),
            },
        },
        Move::Drain { .. } => Ledger {
            ended: ended_unprocessed(ledger.ended, waiting(state)),
            ..ledger
        },
        _ => ledger,
    }
}

/// Whether every task that was submitted is accounted for, once: it waits in one place of
/// one queue, or a worker holds it, or it has ended in one outcome, which names it.
pub open spec fn accounted<W: Worker, Q>(state: HiveState<W, Q>, ledger: Ledger<W>) -> bool {
    &&& distinct(waiting(state))
    &&& forall|k: int|
        0 <= k < waiting(state).len() ==> {
            &&& (#[trigger] waiting(state)[k]).spec_index() < state.next_task_index
            &&& !ledger.in_flight.contains(waiting(state)[k].spec_index())
            &&& !ledger.ended.contains_key(waiting(state)[k].spec_index())
        }
    &&& forall|index: usize| #[trigger]
        ledger.in_flight.contains(index) ==> index < state.next_task_index
            && !ledger.ended.contains_key(index)
    &&& forall|index: usize| #[trigger]
        ledger.ended.contains_key(index) ==> index < state.next_task_index
            && ledger.ended[index].spec_index() == index
    &&& forall|index: usize|
        index < state.next_task_index ==> #[trigger] among(waiting(state), index)
            || ledger.in_flight.contains(index) || ledger.ended.contains_key(index)
    &&& waiting(state).len() <= state.queued
    &&& state.next_task_index <= usize::MAX
}

/// The state and the ledger after the moves `moves`, made in their order from the state
/// `start` with the ledger `ledger`.
pub open spec fn course<W: Worker, Q>(
    start: HiveState<W, Q>,
    ledger: Ledger<W>,
    moves: Seq<Move<W>>,
) -> (HiveState<W, Q>, Ledger<W>)
    decreases moves.len(),
{
    if moves.len() == 0 {
        (start, ledger)
    } else {
        let before = course(start, ledger, moves.drop_last());
        (state_after(before.0, moves.last()), ledger_after(before.0, before.1, moves.last()))
    }
}

/// Whether each of `moves` is in order where it is made.
pub open spec fn in_order<W: Worker, Q>(
    start: HiveState<W, Q>,
    ledger: Ledger<W>,
    moves: Seq<Move<W>>,
) -> bool
    decreases moves.len(),
{
    moves.len() > 0 ==> {
        let before = course(start, ledger, moves.drop_last());
        in_order(start, ledger, moves.drop_last()) && orderly(before.0, before.1, moves.last())
    }
}

/// A new hive has nothing to account for.
pub proof fn lemma_fresh_is_accounted<W: Worker, Q>(state: HiveState<W, Q>)
    requires
        state.tasks.len() == 0,
        state.retries.len() == 0,
        state.next_task_index == 0,
    ensures
        accounted(state, Ledger::<W> { in_flight: Set::empty(), ended: Map::empty() }),
{
}

/// A task that is put into a sequence of tasks is among them, and so is every task that
/// was; tasks with indices of their own keep them if the new task has one of its own too.
proof fn lemma_insert<W: Worker>(tasks: Seq<Task<W>>, at: int, task: Task<W>)
    requires
        0 <= at <= tasks.len(),
    ensures
        forall|index: usize|
            among(tasks.insert(at, task), index) <==> (among(tasks, index) || index
                == task.spec_index()),
        distinct(tasks) && !among(tasks, task.spec_index()) ==> distinct(tasks.insert(at, task)),
{
    let grown = tasks.insert(at, task);
    assert forall|index: usize|
        among(grown, index) <==> (among(tasks, index) || index == task.spec_index()) by {
        if among(grown, index) {
            let k = choose|k: int| 0 <= k < grown.len() && (#[trigger] grown[k]).spec_index() == index;
            if k < at {
                assert(tasks[k].spec_index() == index);
            } else if k > at {
                assert(tasks[k - 1].spec_index() == index);
            }
        }
        if among(tasks, index) {
            let k = choose|k: int| 0 <= k < tasks.len() && (#[trigger] tasks[k]).spec_index() == index;
            if k < at {
                assert(grown[k].spec_index() == index);
            } else {
                assert(grown[k + 1].spec_index() == index);
            }
        }
        if index == task.spec_index() {
            assert(grown[at].spec_index() == index);
        }
    }
    if distinct(tasks) && !among(tasks, task.spec_index()) {
        assert forall|j: int, k: int| 0 <= j < k < grown.len() implies (
        #[trigger] grown[j]).spec_index() != (#[trigger] grown[k]).spec_index() by {
            let from_j = if j < at {
                j
            } else {
                j - 1
            };
            let from_k = if k < at {
                k
            } else {
                k - 1
            };
            if j != at {
                assert(grown[j] == tasks[from_j]);
            }
            if k != at {
                assert(grown[k] == tasks[from_k]);
            }
        }
    }
}

/// A task that is taken out of a sequence of tasks with indices of their own is no longer
/// among them, and every other task still is.
proof fn lemma_remove<W: Worker>(tasks: Seq<Task<W>>, at: int)
    requires
        0 <= at < tasks.len(),
        distinct(tasks),
    ensures
        forall|index: usize|
            among(tasks.remove(at), index) <==> (among(tasks, index) && index
                != tasks[at].spec_index()),
        distinct(tasks.remove(at)),
{
    let rest = tasks.remove(at);
    assert forall|index: usize|
        among(rest, index) <==> (among(tasks, index) && index != tasks[at].spec_index()) by {
        if among(rest, index) {
            let k = choose|k: int| 0 <= k < rest.len() && (#[trigger] rest[k]).spec_index() == index;
            if k < at {
                assert(tasks[k].spec_index() == index);
            } else {
                assert(tasks[k + 1].spec_index() == index);
            }
        }
        if among(tasks, index) && index != tasks[at].spec_index() {
            let k = choose|k: int| 0 <= k < tasks.len() && (#[trigger] tasks[k]).spec_index() == index;
            if k < at {
                assert(rest[k].spec_index() == index);
            } else {
                assert(rest[k - 1].spec_index() == index);
            }
        }
    }
    assert forall|j: int, k: int| 0 <= j < k < rest.len() implies (
    #[trigger] rest[j]).spec_index() != (#[trigger] rest[k]).spec_index() by {
        let from_j = if j < at {
            j
        } else {
            j + 1
        };
        let from_k = if k < at {
            k
        } else {
            k + 1
        };
        assert(rest[j] == tasks[from_j]);
        assert(rest[k] == tasks[from_k]);
    }
}

/// Tasks that are put between two runs of tasks are among the whole, and so is every task
/// of the two runs; if the new tasks are numbered in a row, from a number that none of the
/// others has reached, every task of the whole has an index of its own.
proof fn lemma_splice<W: Worker>(
    front: Seq<Task<W>>,
    new: Seq<Task<W>>,
    back: Seq<Task<W>>,
    first: nat,
)
    requires
        numbered_from(new, first),
        first + new.len() <= usize::MAX,
        distinct(front + back),
        forall|k: int| 0 <= k < (front + back).len() ==> (#[trigger] (front + back)[k]).spec_index() < first,
    ensures
        forall|index: usize|
            among(front + new + back, index) <==> (among(front + back, index) || first <= index
                < first + new.len()),
        distinct(front + new + back),
{
    let old = front + back;
    let whole = front + new + back;
    assert forall|index: usize|
        among(whole, index) <==> (among(old, index) || first <= index < first + new.len()) by {
        if among(whole, index) {
            let k = choose|k: int| 0 <= k < whole.len() && (#[trigger] whole[k]).spec_index() == index;
            if k < front.len() {
                assert(old[k].spec_index() == index);
            } else if k < front.len() + new.len() {
                assert(whole[k] == new[k - front.len()]);
            } else {
                assert(old[k - new.len()].spec_index() == index);
            }
        }
        if among(old, index) {
            let k = choose|k: int| 0 <= k < old.len() && (#[trigger] old[k]).spec_index() == index;
            if k < front.len() {
                assert(whole[k].spec_index() == index);
            } else {
                assert(whole[k + new.len()].spec_index() == index);
            }
        }
        if first <= index < first + new.len() {
            let k = index - first;
            assert(new[k].spec_index() == index);
            assert(whole[front.len() + k] == new[k]);
        }
    }
    assert forall|j: int, k: int| 0 <= j < k < whole.len() implies (
    #[trigger] whole[j]).spec_index() != (#[trigger] whole[k]).spec_index() by {
        let is_new_j = front.len() <= j < front.len() + new.len();
        let is_new_k = front.len() <= k < front.len() + new.len();
        let from_j = if j < front.len() {
            j
        } else {
            j - new.len()
        };
        let from_k = if k < front.len() {
            k
        } else {
            k - new.len()
        };
        if is_new_j {
            assert(whole[j] == new[j - front.len()]);
        } else {
            assert(whole[j] == old[from_j]);
        }
        if is_new_k {
            assert(whole[k] == new[k - front.len()]);
        } else {
            assert(whole[k] == old[from_k]);
        }
    }
}

/// Taking the task at the place `at` of what waits, and handing it to a worker, leaves
/// every task accounted for.
proof fn lemma_taken<W: Worker, Q>(
    state: HiveState<W, Q>,
    ledger: Ledger<W>,
    next: HiveState<W, Q>,
    at: int,
)
    requires
        accounted(state, ledger),
        0 <= at < waiting(state).len(),
        waiting(next) == waiting(state).remove(at),
        next.next_task_index == state.next_task_index,
        next.queued == state.queued - 1,
    ensures
        accounted(
            next,
            Ledger {
                in_flight: ledger.in_flight.insert(waiting(state)[at].spec_index()),
                ..ledger
            },
        ),
{
    let queue = waiting(state);
    let taken = queue[at].spec_index();
    let booked = Ledger { in_flight: ledger.in_flight.insert(taken), ..ledger };
    lemma_remove(queue, at);
    assert forall|k: int| 0 <= k < waiting(next).len() implies {
        &&& (#[trigger] waiting(next)[k]).spec_index() < next.next_task_index
        &&& !booked.in_flight.contains(waiting(next)[k].spec_index())
        &&& !booked.ended.contains_key(waiting(next)[k].spec_index())
    } by {
        let index = waiting(next)[k].spec_index();
        assert(among(waiting(next), index));
        let was = choose|was: int|
            0 <= was < queue.len() && (#[trigger] queue[was]).spec_index() == index;
    }
    assert forall|index: usize|
        index < next.next_task_index implies #[trigger] among(waiting(next), index)
        || booked.in_flight.contains(index) || booked.ended.contains_key(index) by {
        assert(among(queue, index) || ledger.in_flight.contains(index)
            || ledger.ended.contains_key(index));
    }
}

/// An orderly move leaves every task accounted for.
pub proof fn lemma_move_keeps_account<W: Worker, Q>(
    state: HiveState<W, Q>,
    ledger: Ledger<W>,
    m: Move<W>,
)
    requires
        accounted(state, ledger),
        orderly(state, ledger, m),
    ensures
        accounted(state_after(state, m), ledger_after(state, ledger, m)),
{
    let next = state_after(state, m);
    let booked = ledger_after(state, ledger, m);
    let queue = waiting(state);
    let back = tasks_of(state.retries);
    match m {
        Move::Submit { tasks } => {
            assert(waiting(next) =~= state.tasks + tasks + back);
            lemma_splice(state.tasks, tasks, back, state.next_task_index);
            assert forall|k: int| 0 <= k < waiting(next).len() implies {
                &&& (#[trigger] waiting(next)[k]).spec_index() < next.next_task_index
                &&& !booked.in_flight.contains(waiting(next)[k].spec_index())
                &&& !booked.ended.contains_key(waiting(next)[k].spec_index())
            } by {
                let index = waiting(next)[k].spec_index();
                assert(among(waiting(next), index));
                if among(queue, index) {
                    let at = choose|at: int|
                        0 <= at < queue.len() && (#[trigger] queue[at]).spec_index() == index;
                }
            }
            assert forall|index: usize|
                index < next.next_task_index implies #[trigger] among(waiting(next), index)
                || booked.in_flight.contains(index) || booked.ended.contains_key(index) by {
                if index < state.next_task_index {
                    assert(among(queue, index) || ledger.in_flight.contains(index)
                        || ledger.ended.contains_key(index));
                }
            }
        },
        Move::Take { now } => {
            match fetch(state, now) {
                Fetch::Fresh => {
                    assert(queue[0] == state.tasks[0]);
                    assert(waiting(next) =~= queue.remove(0));
                    lemma_taken(state, ledger, next, 0);
                },
                Fetch::Retry => {
                    let at = state.tasks.len() as int;
                    assert(queue[at] == state.retries[0].1);
                    assert(waiting(next) =~= queue.remove(at));
                    lemma_taken(state, ledger, next, at);
                },
                _ => {},
            }
        },
        Move::Handle { ctx, outcome_tx, attempt, kept, now } => {
            match verdict(state.settings.max_retries, ctx, attempt) {
                Verdict::Again { input } => {
                    let deadline = deadline_of(
                        now,
                        retry_delay(state.settings.retry_factor, ctx.attempt),
                    );
                    let slot = slot_for(state.retries, deadline);
                    lemma_slot_for_bounds(state.retries, deadline);
                    let task = Task::<W> {
                        input,
                        ctx: Context { attempt: (ctx.attempt + 1) as u32, ..ctx },
                        outcome_tx,
                    };
                    let at = state.tasks.len() + slot;
                    assert(waiting(next) =~= queue.insert(at, task));
                    assert(!among(queue, ctx.index)) by {
                        if among(queue, ctx.index) {
                            let k = choose|k: int|
                                0 <= k < queue.len() && (#[trigger] queue[k]).spec_index()
                                    == ctx.index;
                        }
                    }
                    lemma_insert(queue, at, task);
                    assert forall|k: int| 0 <= k < waiting(next).len() implies {
                        &&& (#[trigger] waiting(next)[k]).spec_index() < next.next_task_index
                        &&& !booked.in_flight.contains(waiting(next)[k].spec_index())
                        &&& !booked.ended.contains_key(waiting(next)[k].spec_index())
                    } by {
                        let index = waiting(next)[k].spec_index();
                        assert(among(waiting(next), index));
                        if among(queue, index) {
                            let was = choose|was: int|
                                0 <= was < queue.len() && (#[trigger] queue[was]).spec_index()
                                    == index;
                        }
                    }
                    assert forall|index: usize|
                        index < next.next_task_index implies #[trigger] among(
                        waiting(next),
                        index,
                    ) || booked.in_flight.contains(index) || booked.ended.contains_key(index) by {
                        assert(among(queue, index) || ledger.in_flight.contains(index)
                            || ledger.ended.contains_key(index));
                    }
                },
                Verdict::Ended { outcome } => {
                    assert(waiting(next) == queue);
                    assert forall|index: usize|
                        index < next.next_task_index implies #[trigger] among(
                        waiting(next),
                        index,
                    ) || booked.in_flight.contains(index) || booked.ended.contains_key(index) by {
                        assert(among(queue, index) || ledger.in_flight.contains(index)
                            || ledger.ended.contains_key(index));
                    }
                },
            }
        },
        Move::Drain { unsent, poison } => {
            assert(waiting(next) =~= Seq::<Task<W>>::empty());
            assert forall|index: usize|
                index < next.next_task_index implies #[trigger] among(waiting(next), index)
                || booked.in_flight.contains(index) || booked.ended.contains_key(index) by {
                assert(among(queue, index) || ledger.in_flight.contains(index)
                    || ledger.ended.contains_key(index));
            }
            assert forall|index: usize| #[trigger] booked.ended.contains_key(index) implies index
                < next.next_task_index && booked.ended[index].spec_index() == index by {
                if !ledger.ended.contains_key(index) {
                    let k = choose|k: int|
                        0 <= k < queue.len() && (#[trigger] queue[k]).spec_index() == index;
                }
            }
            assert forall|index: usize| #[trigger] booked.in_flight.contains(index) implies index
                < next.next_task_index && !booked.ended.contains_key(index) by {
                if among(queue, index) {
                    let k = choose|k: int|
                        0 <= k < queue.len() && (#[trigger] queue[k]).spec_index() == index;
                }
            }
        },
        Move::Suspend => {
            assert(waiting(next) == queue);
        },
        Move::Resume => {
            assert(waiting(next) == queue);
        },
    }
}

/// A worker that asks for a task is always handed one when a submitted task waits, or a
/// retry that has come due, in a hive that is neither suspended nor poisoned: the counts
/// never stand in the way of a task that is accounted for.
pub proof fn lemma_waiting_task_is_handed<W: Worker, Q>(
    state: HiveState<W, Q>,
    ledger: Ledger<W>,
    now: u64,
)
    requires
        accounted(state, ledger),
        state.active < u64::MAX,
    ensures
        !(handed(state, now) matches Err(NextTaskError::InvalidCounter(_))),
        !state.suspended && !state.poisoned && (state.tasks.len() > 0 || (state.retries.len() > 0
            && state.retries[0].0 <= now)) ==> handed(state, now) matches Ok(Some(_)),
{
}

/// Every task of a hive is accounted for at every time of an orderly life: it waits in
/// one place of one queue, or a worker holds it, or it has ended in one outcome.
pub proof fn lemma_every_task_accounted<W: Worker, Q>(
    start: HiveState<W, Q>,
    ledger: Ledger<W>,
    moves: Seq<Move<W>>,
)
    requires
        accounted(start, ledger),
        in_order(start, ledger, moves),
    ensures
        accounted(course(start, ledger, moves).0, course(start, ledger, moves).1),
    decreases moves.len(),
{
    if moves.len() > 0 {
        lemma_every_task_accounted(start, ledger, moves.drop_last());
        let before = course(start, ledger, moves.drop_last());
        lemma_move_keeps_account(before.0, before.1, moves.last());
    }
}

/// When nothing waits in a hive and no worker holds a task, every task that was ever
/// submitted has ended, in one outcome that names it.
pub proof fn lemma_all_ended_when_idle<W: Worker, Q>(state: HiveState<W, Q>, ledger: Ledger<W>)
    requires
        accounted(state, ledger),
        waiting(state).len() == 0,
        ledger.in_flight == Set::<usize>::empty(),
    ensures
        forall|index: usize|
            index < state.next_task_index <==> #[trigger] ledger.ended.contains_key(index),
        forall|index: usize| #[trigger]
            ledger.ended.contains_key(index) ==> ledger.ended[index].spec_index() == index,
{
    assert forall|index: usize| index < state.next_task_index implies #[trigger]
        ledger.ended.contains_key(index) by {
        assert(among(waiting(state), index) || ledger.in_flight.contains(index)
            || ledger.ended.contains_key(index));
    }
}

} // verus!
