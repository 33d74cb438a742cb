use crate::bee::Worker;
use crate::hive::outcome::outcome::Outcome;
use crate::hive::outcome::store::{insert_outcome, remove_outcome};
use std::collections::HashMap;
use vstd::prelude::*;

verus! {

broadcast use vstd::std_specs::hash::group_hash_axioms;

/// Puts the outcomes of a batch of tasks, which arrive in any order, into the order in
/// which the tasks were submitted. An outcome that arrives before its turn is held until
/// every outcome before it has been handed on.
#[verifier::reject_recursive_types(W)]
pub struct OrderedOutcomes<W: Worker> {
    indices: Vec<usize>,
    position: usize,
    early: HashMap<usize, Outcome<W>>,
}

/// What a buffer of outcomes holds, as plain mathematical values.
#[verifier::reject_recursive_types(W)]
pub struct Turns<W: Worker> {
    /// The indices of the tasks, in the order in which their outcomes are handed on.
    pub indices: Seq<usize>,
    /// The number of outcomes that have been handed on.
    pub position: nat,
    /// The outcomes that have arrived and are held.
    pub early: Map<usize, Outcome<W>>,
}

impl<W: Worker> Turns<W> {
    /// Whether the outcome that is next in turn has arrived.
    pub open spec fn ready(self) -> bool {
        self.position < self.indices.len() && self.early.contains_key(
            self.indices[self.position as int],
        )
    }
}

impl<W: Worker> View for OrderedOutcomes<W> {
    type V = Turns<W>;

    closed spec fn view(&self) -> Turns<W> {
        Turns {
            indices: self.indices@,
            position: self.position as nat,
            early: self.early@,
        }
    }
}

impl<W: Worker> OrderedOutcomes<W> {
    /// No more outcomes have been handed on than there are tasks.
    pub closed spec fn wf(&self) -> bool {
        self.position <= self.indices.len()
    }

    /// A buffer for the outcomes of the tasks with the indices `indices`, which are handed
    /// on in the order of `indices`.
    pub fn new(indices: Vec<usize>) -> (buffer: Self)
        ensures
            buffer.wf(),
            buffer@ == (Turns::<W> { indices: indices@, position: 0, early: Map::empty() }),
    {
        OrderedOutcomes { indices, position: 0, early: HashMap::new() }
    }

    /// Whether every outcome has been handed on.
    pub fn is_finished(&self) -> (finished: bool)
        requires
            self.wf(),
        ensures
            finished == (self@.position == self@.indices.len()),
    {
        self.position == self.indices.len()
    }

    /// Takes in an outcome that has arrived. It is held under the index of its task, in
    /// place of an earlier outcome of that task if one is held.
    pub fn offer(&mut self, outcome: Outcome<W>)
        requires
            old(self).wf(),
        ensures
            final(self).wf(),
            final(self)@ == (Turns {
                early: old(self)@.early.insert(outcome.spec_index(), outcome),
                ..old(self)@
            }),
    {
        insert_outcome(&mut self.early, outcome);
    }

    /// Hands on the outcome that is next in turn, if it has arrived.
    pub fn next_ready(&mut self) -> (outcome: Option<Outcome<W>>)
        requires
            old(self).wf(),
        ensures
            final(self).wf(),
            match outcome {
                Some(outcome) => {
                    let index = old(self)@.indices[old(self)@.position as int];
                    &&& old(self)@.ready()
                    &&& outcome == old(self)@.early[index]
                    &&& final(self)@ == (Turns {
                        position: old(self)@.position + 1,
                        early: old(self)@.early.remove(index),
                        ..old(self)@
                    })
                },
                None => !old(self)@.ready() && final(self)@ == old(self)@,
            },
    {
        if self.position < self.indices.len() {
            let index = self.indices[self.position];
            let outcome = remove_outcome(&mut self.early, index);
            if outcome.is_some() {
                self.position = self.position + 1;
            } else {
                assert(self.early@ =~= old(self).early@);
            }
            outcome
        } else {
            None
        }
    }
}

} // verus!
