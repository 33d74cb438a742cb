use crate::bee::Worker;
use crate::hive::outcome::outcome::Outcome;
use crate::hive::outcome::store::{keyed_by_index, lists_chosen, take_chosen};
use std::collections::HashMap;
use vstd::prelude::*;

verus! {

broadcast use vstd::std_specs::hash::group_hash_axioms;

/// The outcomes that a hive kept, taken out of it.
#[verifier::reject_recursive_types(W)]
pub struct OutcomeBatch<W: Worker> {
    outcomes: HashMap<usize, Outcome<W>>,
}

impl<W: Worker> View for OutcomeBatch<W> {
    type V = Map<usize, Outcome<W>>;

    closed spec fn view(&self) -> Map<usize, Outcome<W>> {
        self.outcomes@
    }
}

/// The values of `outcomes`, which all are successes, in their order.
pub open spec fn values_of<W: Worker>(outcomes: Seq<Outcome<W>>) -> Seq<W::Output> {
    Seq::new(outcomes.len(), |i: int| outcomes[i]->value)
}

/// Whether every outcome of `outcomes` is a success.
pub open spec fn all_successes<W: Worker>(outcomes: Map<usize, Outcome<W>>) -> bool {
    forall|index: usize| #[trigger] outcomes.contains_key(index) ==> outcomes[index] is Success
}

impl<W: Worker> OutcomeBatch<W> {
    /// A batch of the given outcomes.
    pub fn new(outcomes: HashMap<usize, Outcome<W>>) -> (batch: Self)
        ensures
            batch@ == outcomes@,
    {
        OutcomeBatch { outcomes }
    }

    /// The number of outcomes in the batch.
    pub fn len(&self) -> (n: usize)
        ensures
            n == self@.len(),
    {
        self.outcomes.len()
    }

    /// The outcomes of the batch.
    pub fn into_inner(self) -> (outcomes: HashMap<usize, Outcome<W>>)
        ensures
            outcomes@ == self@,
    {
        self.outcomes
    }

    /// The values of a batch of which every outcome is a success, in no particular order.
    pub fn unwrap(self) -> (values: Vec<W::Output>)
        requires
            keyed_by_index(self@),
            all_successes(self@),
        ensures
            exists|taken: Seq<Outcome<W>>| #[trigger]
                lists_chosen(taken, self@, false) && values@ == values_of(taken),
    {
        let mut outcomes = self.outcomes;
        let taken = take_chosen(&mut outcomes, false);
        let ghost all = taken@;
        let mut values: Vec<W::Output> = Vec::new();
        for outcome in it: taken
            invariant
                it.seq() == all,
                forall|i: int| 0 <= i < all.len() ==> (#[trigger] all[i]) is Success,
                values@ == values_of(all.take(it.index() as int)),
        {
            values.push(outcome.unwrap());
            assert(values@ =~= values_of(all.take(it.index() + 1)));
        }
        assert(all.take(all.len() as int) =~= all);
        values
    }
}

} // verus!
