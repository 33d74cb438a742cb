//! What is left of a hive that has ended.

use crate::bee::{Queen, Worker};
use crate::hive::builder::Builder;
use crate::hive::config::{Config, Settings};
use crate::hive::hive::Hive;
use crate::hive::outcome::store::{
    get_outcome, keyed_by_index, lists_chosen, remove_outcome, take_chosen, without_chosen,
};
use crate::hive::outcome::{Outcome, OutcomeBatch};
use crate::hive::state::{indices_from, submission_of, HiveState};
use crate::hive::task::OutcomeSender;
use std::collections::HashMap;
use vstd::prelude::*;

verus! {

broadcast use vstd::std_specs::hash::group_hash_axioms;

/// The remains of a hive: its settings, its factory, the number of panics, and the
/// outcomes that it kept. A husk has no threads and no queues.
#[verifier::reject_recursive_types(W)]
pub struct Husk<W: Worker, Q: Queen<Kind = W>> {
    config: Config,
    queen: Q,
    num_panics: usize,
    outcomes: HashMap<usize, Outcome<W>>,
}

/// What a husk holds, as plain mathematical values.
#[verifier::reject_recursive_types(W)]
pub struct HuskState<W: Worker, Q> {
    /// The settings of the former hive.
    pub settings: Settings,
    /// The factory of the former hive.
    pub queen: Q,
    /// The number of runs in the former hive that ended in a panic.
    pub num_panics: usize,
    /// The outcomes that the former hive kept.
    pub outcomes: Map<usize, Outcome<W>>,
}

impl<W: Worker, Q: Queen<Kind = W>> View for Husk<W, Q> {
    type V = HuskState<W, Q>;

    closed spec fn view(&self) -> HuskState<W, Q> {
        HuskState {
            settings: self.config.settings(),
            queen: self.queen,
            num_panics: self.num_panics,
            outcomes: self.outcomes@,
        }
    }
}

/// The inputs of `outcomes`, which all are of tasks that were never run, in their order.
pub open spec fn inputs_of<W: Worker>(outcomes: Seq<Outcome<W>>) -> Seq<W::Input> {
    Seq::new(outcomes.len(), |i: int| outcomes[i]->Unprocessed_input)
}

/// Whether `inputs` are the inputs of the tasks that `outcomes` holds as never run: each
/// of them once, in no particular order.
pub open spec fn lists_unprocessed_inputs<W: Worker>(
    inputs: Seq<W::Input>,
    outcomes: Map<usize, Outcome<W>>,
) -> bool {
    exists|taken: Seq<Outcome<W>>| #[trigger]
        lists_chosen(taken, outcomes, true) && inputs == inputs_of(taken)
}

impl<W: Worker, Q: Queen<Kind = W>> Husk<W, Q> {
    /// Every outcome is kept under the index of its task.
    pub open spec fn wf(&self) -> bool {
        keyed_by_index(self@.outcomes)
    }

    /// A husk of the given parts.
    pub fn new(
        config: Config,
        queen: Q,
        num_panics: usize,
        outcomes: HashMap<usize, Outcome<W>>,
    ) -> (husk: Self)
        ensures
            husk@ == (HuskState {
                settings: config.settings(),
                queen,
                num_panics,
                outcomes: outcomes@,
            }),
    {
        Husk { config, queen, num_panics, outcomes }
    }

    /// The factory of the former hive.
    pub fn queen(&self) -> (queen: &Q)
        ensures
            *queen == self@.queen,
    {
        &self.queen
    }

    /// The number of runs in the former hive that ended in a panic.
    pub fn num_panics(&self) -> (n: usize)
        ensures
            n == self@.num_panics,
    {
        self.num_panics
    }

    /// The outcomes that the former hive kept.
    pub fn outcomes(&self) -> (outcomes: &HashMap<usize, Outcome<W>>)
        ensures
            outcomes@ == self@.outcomes,
    {
        &self.outcomes
    }

    /// The outcome that the husk keeps of the task with the index `index`, if it keeps
    /// one.
    pub fn get(&self, index: usize) -> (outcome: Option<&Outcome<W>>)
        ensures
            match outcome {
                Some(outcome) => self@.outcomes.contains_key(index) && *outcome
                    == self@.outcomes[index],
                None => !self@.outcomes.contains_key(index),
            },
    {
        get_outcome(&self.outcomes, index)
    }

    /// Takes the outcome of the task with the index `index` out of the husk, if it keeps
    /// one.
    pub fn remove(&mut self, index: usize) -> (outcome: Option<Outcome<W>>)
        requires
            old(self).wf(),
        ensures
            final(self).wf(),
            final(self)@ == (HuskState {
                outcomes: old(self)@.outcomes.remove(index),
                ..old(self)@
            }),
            match outcome {
                Some(outcome) => old(self)@.outcomes.contains_key(index) && outcome == old(
                    self,
                )@.outcomes[index],
                None => !old(self)@.outcomes.contains_key(index),
            },
    {
        remove_outcome(&mut self.outcomes, index)
    }

    /// Takes the outcomes of the tasks that were never run out of the husk, in no
    /// particular order.
    pub fn take_unprocessed(&mut self) -> (taken: Vec<Outcome<W>>)
        requires
            old(self).wf(),
        ensures
            final(self).wf(),
            lists_chosen(taken@, old(self)@.outcomes, true),
            final(self)@ == (HuskState {
                outcomes: without_chosen(old(self)@.outcomes, true),
                ..old(self)@
            }),
    {
        take_chosen(&mut self.outcomes, true)
    }

    /// The factory and the outcomes of the former hive.
    pub fn into_parts(self) -> (parts: (Q, OutcomeBatch<W>))
        ensures
            parts.0 == self@.queen,
            parts.1@ == self@.outcomes,
    {
        (self.queen, OutcomeBatch::new(self.outcomes))
    }

    /// A builder with the settings of the former hive.
    pub fn as_builder(&self) -> (builder: Builder)
        ensures
            builder.wf(),
            builder.settings() == self@.settings,
    {
        Builder::of(self.config.clone())
    }

    /// A new hive with the settings and the factory of the former one. Nothing is queued
    /// in it and nothing is kept: the outcomes of the husk are dropped.
    pub fn into_hive(self) -> (hive: Hive<W, Q>)
        ensures
            hive.wf(),
            hive@ == HiveState::<W, Q>::fresh(self@.settings, self@.queen),
    {
        self.as_builder().build(self.queen)
    }

    /// The inputs of the tasks that `outcomes` holds as never run, in no particular order.
    /// The other outcomes are dropped.
    pub fn collect_unprocessed(outcomes: HashMap<usize, Outcome<W>>) -> (inputs: Vec<W::Input>)
        requires
            keyed_by_index(outcomes@),
        ensures
            lists_unprocessed_inputs(inputs@, outcomes@),
    {
        let mut outcomes = outcomes;
        let taken = take_chosen(&mut outcomes, true);
        let ghost all = taken@;
        let mut inputs: Vec<W::Input> = Vec::new();
        for outcome in it: taken
            invariant
                it.seq() == all,
                forall|i: int| 0 <= i < all.len() ==> (#[trigger] all[i]) is Unprocessed,
                inputs@ == inputs_of(all.take(it.index() as int)),
        {
            match outcome {
                Outcome::Unprocessed { input, .. } => {
                    inputs.push(input);
                },
                _ => {
                    assert(false);
                },
            }
            assert(inputs@ =~= inputs_of(all.take(it.index() + 1)));
        }
        assert(all.take(all.len() as int) =~= all);
        inputs
    }

    /// A new hive with the settings and the factory of the former one, in which the tasks
    /// that the former hive never ran are queued again, in no particular order. Their
    /// outcomes will be sent to `tx`. Returns the hive and the indices of the tasks.
    pub fn into_hive_swarm_unprocessed_to(self, tx: OutcomeSender<W>) -> (r: (
        Hive<W, Q>,
        Vec<usize>,
    ))
        requires
            self.wf(),
        ensures
            resubmitted(self@, Some(tx), r.0@),
            r.0.wf(),
            r.1@ == indices_from(0, r.0@.tasks.len()),
    {
        let mut hive = self.as_builder().build(self.queen);
        let unprocessed = Self::collect_unprocessed(self.outcomes);
        let indices = hive.swarm_send(unprocessed, tx);
        (hive, indices)
    }

    /// A new hive with the settings and the factory of the former one, in which the tasks
    /// that the former hive never ran are queued again, in no particular order. Their
    /// outcomes will be kept in the new hive. Returns the hive and the indices of the
    /// tasks.
    pub fn into_hive_swarm_unprocessed_store(self) -> (r: (Hive<W, Q>, Vec<usize>))
        requires
            self.wf(),
        ensures
            resubmitted(self@, None, r.0@),
            r.0.wf(),
            r.1@ == indices_from(0, r.0@.tasks.len()),
    {
        let mut hive = self.as_builder().build(self.queen);
        let unprocessed = Self::collect_unprocessed(self.outcomes);
        let indices = hive.swarm_store(unprocessed);
        (hive, indices)
    }
}

/// Whether `hive` is the state of a new hive that was made of the husk `husk` and given
/// again the tasks that the former hive never ran: it has the settings and the factory of
/// the husk, and its queue holds one new task, numbered from 0 on, for each input that the
/// husk holds as never run.
pub open spec fn resubmitted<W: Worker, Q>(
    husk: HuskState<W, Q>,
    outcome_tx: Option<OutcomeSender<W>>,
    hive: HiveState<W, Q>,
) -> bool {
    exists|inputs: Seq<W::Input>| #[trigger]
        lists_unprocessed_inputs(inputs, husk.outcomes) && submission_of(
            hive.tasks,
            0,
            inputs,
            outcome_tx,
        ) && hive == HiveState::<W, Q>::fresh(husk.settings, husk.queen).submitted(hive.tasks)
}

/// A hive that is ended and built again has the settings and the factory that it had: the
/// husk keeps both, and the new hive is given both.
pub proof fn lemma_round_trip<W: Worker, Q>(hive: HiveState<W, Q>, husk: HuskState<W, Q>)
    requires
        hive.wf(),
        husk.settings == hive.settings,
        husk.queen == hive.queen,
    ensures
        HiveState::<W, Q>::fresh(husk.settings, husk.queen).settings == hive.settings,
        HiveState::<W, Q>::fresh(husk.settings, husk.queen).queen == hive.queen,
{
}

} // verus!
