//! The envelope in which an input travels from its submitter to a worker.

use crate::bee::{Context, Worker};
use crate::hive::channel::try_send_msg;
use crate::hive::outcome::Outcome;
use std::sync::mpsc::Sender;
use vstd::prelude::*;

verus! {

/// The sending end on which the outcomes of tasks are delivered.
pub type OutcomeSender<W> = Sender<Outcome<W>>;

/// An input on its way to a worker, with its context and, where the submitter asked for
/// delivery, the sender on which its outcome is to be sent.
#[verifier::reject_recursive_types(W)]
pub struct Task<W: Worker> {
    /// What the processor is given.
    pub input: W::Input,
    /// The index of the task and the number of its failed runs.
    pub ctx: Context,
    /// Where the outcome is to be sent, if the submitter asked for that.
    pub outcome_tx: Option<OutcomeSender<W>>,
}

impl<W: Worker> Task<W> {
    /// The index of the task.
    pub open spec fn spec_index(&self) -> usize {
        self.ctx.index
    }

    /// The outcome of a task that is taken out of its queue before it is run.
    pub open spec fn unprocessed(&self) -> Outcome<W> {
        Outcome::Unprocessed { index: self.ctx.index, input: self.input }
    }

    /// A task of the given parts.
    pub fn new(input: W::Input, ctx: Context, outcome_tx: Option<OutcomeSender<W>>) -> (task:
        Self)
        ensures
            task == (Task { input, ctx, outcome_tx }),
    {
        Task { input, ctx, outcome_tx }
    }

    /// The index of the task.
    pub fn index(&self) -> (i: usize)
        ensures
            i == self.spec_index(),
    {
        self.ctx.index()
    }

    /// Turns a task that will not be run into its `Unprocessed` outcome, and sends that to
    /// the task's sender if it has one. The outcome comes back when it was not sent: always
    /// where the task has no sender, and where it has one, whenever the send fails.
    pub fn into_unprocessed_try_send(self) -> (unsent: Option<Outcome<W>>)
        ensures
            unsent matches Some(outcome) ==> outcome == self.unprocessed(),
            self.outcome_tx is None ==> unsent is Some,
    {
        let outcome = Outcome::Unprocessed { index: self.ctx.index(), input: self.input };
        match self.outcome_tx {
            Some(tx) => try_send_msg(&tx, outcome),
            None => Some(outcome),
        }
    }
}

} // verus!
