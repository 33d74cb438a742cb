//! What the user of a hive supplies: the processor and the factory that makes it.

use vstd::prelude::*;

verus! {

/// What a task carries besides its input: the index it was given when it was submitted,
/// and how many times it has been run and failed before.
#[derive(Debug, Clone, Copy, PartialEq, Eq, Structural)]
pub struct Context {
    /// The index of the task.
    pub index: usize,
    /// The number of failed runs before this one.
    pub attempt: u32,
}

impl Context {
    /// The context of a task that has not been run yet.
    pub fn new(index: usize) -> (ctx: Self)
        ensures
            ctx == (Context { index, attempt: 0 }),
    {
        Context { index, attempt: 0 }
    }

    /// The index of the task.
    pub fn index(&self) -> (i: usize)
        ensures
            i == self.index,
    {
        self.index
    }

    /// The number of failed runs before this one.
    pub fn attempt(&self) -> (a: u32)
        ensures
            a == self.attempt,
    {
        self.attempt
    }

    /// Counts one more failed run.
    pub fn inc_attempt(&mut self)
        requires
            old(self).attempt < u32::MAX,
        ensures
            *final(self) == (Context { attempt: (old(self).attempt + 1) as u32, ..*old(self) }),
    {
        self.attempt = self.attempt + 1;
    }
}

/// How a processor failed on an input.
pub enum ApplyError<I, E> {
    /// The input cannot be processed; running it again would not help.
    Fatal { error: E },
    /// The run failed in a way that another run may not; the input is handed back for it.
    Retryable { input: I, error: E },
}

/// The processor of a hive: one instance per worker thread.
pub trait Worker: Sized {
    /// What a task is given.
    type Input;

    /// What a task that succeeds returns.
    type Output;

    /// What a task that fails returns.
    type Error;

    /// Processes one input. The hive promises nothing of a processor and asks nothing of
    /// it: any result is routed to an outcome.
    fn apply(&mut self, input: Self::Input, ctx: &Context) -> Result<
        Self::Output,
        ApplyError<Self::Input, Self::Error>,
    >;
}

/// The factory of the workers of a hive.
pub trait Queen {
    /// The processor that this factory makes.
    type Kind: Worker;

    /// Makes the processor of one more worker thread.
    fn create(&mut self) -> Self::Kind;
}

/// What one run of a processor ended in.
pub enum Attempt<W: Worker> {
    /// The processor returned a value.
    Done { value: W::Output },
    /// The processor returned an error that another run would not mend.
    Failed { error: W::Error },
    /// The processor returned an error that another run may mend, and the input.
    Retryable { input: W::Input, error: W::Error },
    /// The processor panicked; the text is what could be read of the panic's payload.
    Panicked { payload: String },
}

impl<W: Worker> Attempt<W> {
    /// One run's result, as the processor returned it.
    pub fn from_result(result: Result<W::Output, ApplyError<W::Input, W::Error>>) -> (a: Self)
        ensures
            a == Self::of_result(result),
    {
        match result {
            Ok(value) => Attempt::Done { value },
            Err(ApplyError::Fatal { error }) => Attempt::Failed { error },
            Err(ApplyError::Retryable { input, error }) => Attempt::Retryable { input, error },
        }
    }

    /// The attempt that stands for a result of the processor.
    pub open spec fn of_result(
        result: Result<W::Output, ApplyError<W::Input, W::Error>>,
    ) -> Self {
        match result {
            Ok(value) => Attempt::Done { value },
            Err(ApplyError::Fatal { error }) => Attempt::Failed { error },
            Err(ApplyError::Retryable { input, error }) => Attempt::Retryable { input, error },
        }
    }

    /// Whether the processor panicked in this run.
    pub fn is_panic(&self) -> (b: bool)
        ensures
            b == (self is Panicked),
    {
        match self {
            Attempt::Panicked { .. } => true,
            _ => false,
        }
    }
}

} // verus!
