use crate::bee::Worker;
use vstd::prelude::*;

verus! {

/// The terminal result of one task. Every variant holds the index that the task was given
/// when it was submitted.
pub enum Outcome<W: Worker> {
    /// The processor returned a value.
    Success { index: usize, value: W::Output },
    /// The processor returned an error.
    Failure { index: usize, error: W::Error },
    /// The processor panicked; the text is what could be read of the panic's payload.
    Panic { index: usize, payload: String },
    /// The task was taken out of its queue before a worker ran it.
    Unprocessed { index: usize, input: W::Input },
    /// The task failed on every run that the hive allows it.
    MaxRetriesAttempted { index: usize, input: W::Input, last_error: W::Error },
}

impl<W: Worker> Outcome<W> {
    /// The index of the task that ended in this outcome.
    pub open spec fn spec_index(&self) -> usize {
        match self {
            Outcome::Success { index, .. } => *index,
            Outcome::Failure { index, .. } => *index,
            Outcome::Panic { index, .. } => *index,
            Outcome::Unprocessed { index, .. } => *index,
            Outcome::MaxRetriesAttempted { index, .. } => *index,
        }
    }

    /// The index of the task that ended in this outcome.
    pub fn index(&self) -> (i: &usize)
        ensures
            *i == self.spec_index(),
    {
        match self {
            Outcome::Success { index, .. } => index,
            Outcome::Failure { index, .. } => index,
            Outcome::Panic { index, .. } => index,
            Outcome::Unprocessed { index, .. } => index,
            Outcome::MaxRetriesAttempted { index, .. } => index,
        }
    }

    /// Whether the task returned a value.
    pub fn is_success(&self) -> (b: bool)
        ensures
            b == (self is Success),
    {
        match self {
            Outcome::Success { .. } => true,
            _ => false,
        }
    }

    /// Whether the task returned an error.
    pub fn is_failure(&self) -> (b: bool)
        ensures
            b == (self is Failure),
    {
        match self {
            Outcome::Failure { .. } => true,
            _ => false,
        }
    }

    /// Whether the task panicked.
    pub fn is_panic(&self) -> (b: bool)
        ensures
            b == (self is Panic),
    {
        match self {
            Outcome::Panic { .. } => true,
            _ => false,
        }
    }

    /// Whether the task was never run.
    pub fn is_unprocessed(&self) -> (b: bool)
        ensures
            b == (self is Unprocessed),
    {
        match self {
            Outcome::Unprocessed { .. } => true,
            _ => false,
        }
    }

    /// Whether the task failed on every run that it was allowed.
    pub fn is_max_retries_attempted(&self) -> (b: bool)
        ensures
            b == (self is MaxRetriesAttempted),
    {
        match self {
            Outcome::MaxRetriesAttempted { .. } => true,
            _ => false,
        }
    }

    /// The value of a task that succeeded.
    pub fn unwrap(self) -> (value: W::Output)
        requires
            self is Success,
        ensures
            value == self->value,
    {
        match self {
            Outcome::Success { value, .. } => value,
            _ => vstd::pervasive::unreached(),
        }
    }
}

} // verus!
