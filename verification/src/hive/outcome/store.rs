use crate::bee::Worker;
use crate::hive::outcome::outcome::Outcome;
use std::collections::HashMap;
use vstd::prelude::*;
use vstd::std_specs::hash::spec_keys_iter;
use vstd::std_specs::iter::IteratorSpec;

verus! {

broadcast use vstd::std_specs::hash::group_hash_axioms;

/// Whether every outcome of `outcomes` is kept under the index of its task.
pub open spec fn keyed_by_index<W: Worker>(outcomes: Map<usize, Outcome<W>>) -> bool {
    forall|index: usize| #[trigger]
        outcomes.contains_key(index) ==> outcomes[index].spec_index() == index
}

/// Whether `outcome` is among those that are asked for: every outcome, or only those of
/// tasks that were never run.
pub open spec fn chosen<W: Worker>(outcome: Outcome<W>, only_unprocessed: bool) -> bool {
    !only_unprocessed || outcome is Unprocessed
}

/// Whether `taken` holds the chosen outcomes of `outcomes`: nothing else, each of them, and
/// none twice. Nothing is said of their order.
pub open spec fn lists_chosen<W: Worker>(
    taken: Seq<Outcome<W>>,
    outcomes: Map<usize, Outcome<W>>,
    only_unprocessed: bool,
) -> bool {
    &&& forall|i: int|
        0 <= i < taken.len() ==> {
            &&& outcomes.contains_key((#[trigger] taken[i]).spec_index())
            &&& outcomes[taken[i].spec_index()] == taken[i]
            &&& chosen(taken[i], only_unprocessed)
        }
    &&& forall|i: int, j: int|
        0 <= i < j < taken.len() ==> (#[trigger] taken[i]).spec_index() != (
        #[trigger] taken[j]).spec_index()
    &&& forall|index: usize|
        #![trigger outcomes.contains_key(index)]
        outcomes.contains_key(index) && chosen(outcomes[index], only_unprocessed) ==> exists|
            i: int,
        |
            0 <= i < taken.len() && #[trigger] taken[i] == outcomes[index]
}

/// What is left of `outcomes` when the chosen outcomes are taken out.
pub open spec fn without_chosen<W: Worker>(
    outcomes: Map<usize, Outcome<W>>,
    only_unprocessed: bool,
) -> Map<usize, Outcome<W>> {
    Map::new(
        |index: usize|
            outcomes.contains_key(index) && !chosen(outcomes[index], only_unprocessed),
        |index: usize| outcomes[index],
    )
}

/// Keeps `outcome` under the index of its task, in place of an earlier outcome of that
/// task if there is one.
pub fn insert_outcome<W: Worker>(store: &mut HashMap<usize, Outcome<W>>, outcome: Outcome<W>)
    ensures
        final(store)@ == old(store)@.insert(outcome.spec_index(), outcome),
        keyed_by_index(old(store)@) ==> keyed_by_index(final(store)@),
{
    let index = *outcome.index();
    store.insert(index, outcome);
}

/// The outcome that `store` keeps of the task with the index `index`, if it keeps one.
pub fn get_outcome<W: Worker>(store: &HashMap<usize, Outcome<W>>, index: usize) -> (outcome:
    Option<&Outcome<W>>)
    ensures
        match outcome {
            Some(outcome) => store@.contains_key(index) && *outcome == store@[index],
            None => !store@.contains_key(index),
        },
{
    store.get(&index)
}

/// Takes the outcome of the task with the index `index` out of `store`, if it keeps one.
pub fn remove_outcome<W: Worker>(store: &mut HashMap<usize, Outcome<W>>, index: usize) -> (outcome:
    Option<Outcome<W>>)
    ensures
        final(store)@ == old(store)@.remove(index),
        match outcome {
            Some(outcome) => old(store)@.contains_key(index) && outcome == old(store)@[index],
            None => !old(store)@.contains_key(index),
        },
        keyed_by_index(old(store)@) ==> keyed_by_index(final(store)@),
{
    store.remove(&index)
}

/// The indices under which `store` holds an outcome, each once.
fn indices_of<W: Worker>(store: &HashMap<usize, Outcome<W>>) -> (indices: Vec<usize>)
    ensures
        indices@.to_set() == store@.dom(),
        indices@.no_duplicates(),
{
    let mut indices: Vec<usize> = Vec::new();
    let ghost all = spec_keys_iter(store).remaining();
    for index in it: store.keys()
        invariant
            it.seq() == all,
            indices@ == all.take(it.index() as int).unref(),
    {
        indices.push(*index);
        assert(all.take(it.index() + 1).unref() =~= all.take(it.index() as int).unref().push(
            *index,
        ));
    }
    assert(all.take(all.len() as int) =~= all);
    indices
}

/// What the store holds while the chosen outcomes under the indices `seen` have been taken
/// out of `before`.
spec fn partly_taken<W: Worker>(
    before: Map<usize, Outcome<W>>,
    seen: Seq<usize>,
    only_unprocessed: bool,
) -> Map<usize, Outcome<W>> {
    Map::new(
        |index: usize|
            before.contains_key(index) && !(seen.contains(index) && chosen(
                before[index],
                only_unprocessed,
            )),
        |index: usize| before[index],
    )
}

/// Takes the chosen outcomes out of `store`: all of them, or only those of tasks that were
/// never run. The store keeps the rest.
pub fn take_chosen<W: Worker>(
    store: &mut HashMap<usize, Outcome<W>>,
    only_unprocessed: bool,
) -> (taken: Vec<Outcome<W>>)
    requires
        keyed_by_index(old(store)@),
    ensures
        lists_chosen(taken@, old(store)@, only_unprocessed),
        final(store)@ == without_chosen(old(store)@, only_unprocessed),
        keyed_by_index(final(store)@),
{
    let indices = indices_of(store);
    let ghost before = store@;
    let mut taken: Vec<Outcome<W>> = Vec::new();
    let mut at: usize = 0;
    assert(store@ =~= partly_taken(before, indices@.take(0), only_unprocessed));
    while at < indices.len()
        invariant
            0 <= at <= indices.len(),
            indices@.no_duplicates(),
            indices@.to_set() == before.dom(),
            keyed_by_index(before),
            store@ == partly_taken(before, indices@.take(at as int), only_unprocessed),
            forall|i: int|
                0 <= i < taken.len() ==> {
                    &&& before.contains_key((#[trigger] taken[i]).spec_index())
                    &&& before[taken[i].spec_index()] == taken[i]
                    &&& chosen(taken[i], only_unprocessed)
                    &&& indices@.take(at as int).contains(taken[i].spec_index())
                },
            forall|i: int, j: int|
                0 <= i < j < taken.len() ==> (#[trigger] taken[i]).spec_index() != (
                #[trigger] taken[j]).spec_index(),
            forall|index: usize|
                #![trigger indices@.take(at as int).contains(index)]
                indices@.take(at as int).contains(index) && chosen(
                    before[index],
                    only_unprocessed,
                ) ==> exists|i: int| 0 <= i < taken.len() && #[trigger] taken[i] == before[index],
        decreases indices.len() - at,
    {
        let index = indices[at];
        let ghost seen = indices@.take(at as int);
        let ghost seen_next = indices@.take(at + 1);
        proof {
            assert(seen_next =~= seen.push(index));
            assert(indices@.to_set().contains(index));
            assert(before.contains_key(index));
            assert(!seen.contains(index)) by {
                if seen.contains(index) {
                    let earlier = choose|i: int| 0 <= i < seen.len() && seen[i] == index;
                    assert(indices@[earlier] == indices@[at as int]);
                }
            }
            assert(forall|other: usize|
                seen_next.contains(other) <==> (seen.contains(other) || other == index)) by {
                assert forall|other: usize| seen_next.contains(other) implies (seen.contains(other)
                    || other == index) by {
                    let i = choose|i: int| 0 <= i < seen_next.len() && seen_next[i] == other;
                    if i < seen.len() {
                        assert(seen[i] == other);
                    }
                }
                assert forall|other: usize| (seen.contains(other) || other == index)
                    implies seen_next.contains(other) by {
                    if other == index {
                        assert(seen_next[at as int] == index);
                    } else {
                        let i = choose|i: int| 0 <= i < seen.len() && seen[i] == other;
                        assert(seen_next[i] == other);
                    }
                }
            }
        }
        let wanted = match store.get(&index) {
            Some(outcome) => !only_unprocessed || outcome.is_unprocessed(),
            None => false,
        };
        assert(wanted == chosen(before[index], only_unprocessed));
        if wanted {
            let ghost held = taken@;
            match store.remove(&index) {
                Some(outcome) => {
                    taken.push(outcome);
                    proof {
                        assert(outcome == before[index]);
                        assert forall|i: int, j: int| 0 <= i < j < taken.len() implies (
                        #[trigger] taken[i]).spec_index() != (#[trigger] taken[j]).spec_index() by {
                            if j == held.len() {
                                assert(taken[i] == held[i]);
                                assert(seen.contains(held[i].spec_index()));
                            } else {
                                assert(taken[i] == held[i] && taken[j] == held[j]);
                            }
                        }
                        assert forall|other: usize|
                            #![trigger seen_next.contains(other)]
                            seen_next.contains(other) && chosen(
                                before[other],
                                only_unprocessed,
                            ) implies exists|i: int|
                            0 <= i < taken.len() && #[trigger] taken[i] == before[other] by {
                            if other == index {
                                assert(taken[held.len() as int] == before[other]);
                            } else {
                                assert(seen.contains(other));
                                let i = choose|i: int|
                                    0 <= i < held.len() && #[trigger] held[i] == before[other];
                                assert(taken[i] == held[i]);
                            }
                        }
                    }
                },
                None => {
                    assert(false);
                },
            }
        }
        assert(store@ =~= partly_taken(before, seen_next, only_unprocessed));
        at = at + 1;
    }
    proof {
        assert(indices@.take(indices.len() as int) =~= indices@);
        assert(forall|index: usize| indices@.contains(index) <==> before.contains_key(index)) by {
            assert forall|index: usize| indices@.contains(index) <==> before.contains_key(
                index,
            ) by {
                assert(indices@.to_set().contains(index) <==> before.dom().contains(index));
            }
        }
        assert(store@ =~= without_chosen(before, only_unprocessed));
    }
    taken
}

} // verus!
