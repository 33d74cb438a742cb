//! The settings of a hive that is yet to be built.

use crate::bee::{Queen, Worker};
use crate::hive::config::{Config, Settings};
use crate::hive::cores::Cores;
use crate::hive::hive::Hive;
use crate::hive::state::HiveState;
use vstd::prelude::*;

verus! {

/// Collects the settings of a hive and builds it.
#[derive(Debug)]
pub struct Builder {
    config: Config,
}

impl Builder {
    /// The values of the settings that were collected.
    pub closed spec fn settings(&self) -> Settings {
        self.config.settings()
    }

    /// The settings are plain values.
    pub closed spec fn wf(&self) -> bool {
        self.config.is_unsync()
    }

    /// A builder of which no setting is set.
    pub fn new() -> (builder: Self)
        ensures
            builder.wf(),
            builder.settings() == (Settings {
                num_threads: None,
                thread_name: None,
                thread_stack_size: None,
                max_retries: None,
                retry_factor: None,
                affinity: None,
            }),
    {
        Builder { config: Config::empty() }
    }

    /// A builder with the given settings, as plain values.
    pub fn of(config: Config) -> (builder: Self)
        ensures
            builder.wf(),
            builder.settings() == config.settings(),
    {
        Builder { config: config.into_unsync() }
    }

    /// Sets the number of worker threads.
    pub fn num_threads(self, num_threads: usize) -> (builder: Self)
        requires
            self.wf(),
        ensures
            builder.wf(),
            builder.settings() == (Settings { num_threads: Some(num_threads), ..self.settings() }),
    {
        let mut config = self.config;
        let _ = config.num_threads.set(Some(num_threads));
        Builder { config }
    }

    /// Sets the name of the worker threads.
    pub fn thread_name(self, name: String) -> (builder: Self)
        requires
            self.wf(),
        ensures
            builder.wf(),
            builder.settings() == (Settings { thread_name: Some(name@), ..self.settings() }),
    {
        let mut config = self.config;
        let _ = config.thread_name.set(Some(name));
        Builder { config }
    }

    /// Sets the stack size of the worker threads, in bytes.
    pub fn thread_stack_size(self, stack_size: usize) -> (builder: Self)
        requires
            self.wf(),
        ensures
            builder.wf(),
            builder.settings() == (Settings {
                thread_stack_size: Some(stack_size),
                ..self.settings()
            }),
    {
        let mut config = self.config;
        let _ = config.thread_stack_size.set(Some(stack_size));
        Builder { config }
    }

    /// Sets how many times a task that failed is run again.
    pub fn max_retries(self, limit: u32) -> (builder: Self)
        requires
            self.wf(),
        ensures
            builder.wf(),
            builder.settings() == (Settings { max_retries: Some(limit), ..self.settings() }),
    {
        let mut config = self.config;
        let _ = config.max_retries.set(Some(limit));
        Builder { config }
    }

    /// Sets the delay before the first retry of a task, in nanoseconds.
    pub fn retry_factor(self, nanos: u64) -> (builder: Self)
        requires
            self.wf(),
        ensures
            builder.wf(),
            builder.settings() == (Settings { retry_factor: Some(nanos), ..self.settings() }),
    {
        let mut config = self.config;
        let _ = config.retry_factor.set(Some(nanos));
        Builder { config }
    }

    /// Sets the cores to which the worker threads are pinned.
    pub fn core_affinity(self, cores: Cores) -> (builder: Self)
        requires
            self.wf(),
        ensures
            builder.wf(),
            builder.settings() == (Settings { affinity: Some(cores@), ..self.settings() }),
    {
        let mut config = self.config;
        let _ = config.affinity.set(Some(cores));
        Builder { config }
    }

    /// Builds a hive with the settings that were collected and the given factory. The
    /// hive is new: nothing is queued and nothing is kept. A hive of which the number of
    /// threads was not set has none.
    pub fn build<W: Worker, Q: Queen<Kind = W>>(self, queen: Q) -> (hive: Hive<W, Q>)
        ensures
            hive.wf(),
            hive@ == HiveState::<W, Q>::fresh(self.settings(), queen),
    {
        Hive::new(self.config, queen)
    }
}

} // verus!
