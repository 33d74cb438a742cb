//! The settings of a hive.

use crate::atomic::{AtomicAny, AtomicOption, AtomicU32, AtomicU64, AtomicUsize};
use crate::hive::cores::Cores;
use vstd::prelude::*;

verus! {

/// The settings of a hive. While a hive is being built they are plain values; a live hive
/// keeps them in cells, so that the number of threads and the cores can be changed in
/// place.
#[derive(Debug)]
pub struct Config {
    /// The number of worker threads that the hive runs at most.
    pub num_threads: AtomicOption<usize, AtomicUsize>,
    /// The name that is given to the worker threads.
    pub thread_name: AtomicOption<String, AtomicAny<String>>,
    /// The stack size of the worker threads, in bytes.
    pub thread_stack_size: AtomicOption<usize, AtomicUsize>,
    /// How many times a task that failed is run again. Unset: never.
    pub max_retries: AtomicOption<u32, AtomicU32>,
    /// The delay before the first retry, in nanoseconds; it doubles with every retry.
    pub retry_factor: AtomicOption<u64, AtomicU64>,
    /// The cores to which the worker threads are pinned.
    pub affinity: AtomicOption<Cores, AtomicAny<Cores>>,
}

/// The values of the settings of a hive, whatever state they are kept in.
pub struct Settings {
    pub num_threads: Option<usize>,
    pub thread_name: Option<Seq<char>>,
    pub thread_stack_size: Option<usize>,
    pub max_retries: Option<u32>,
    pub retry_factor: Option<u64>,
    pub affinity: Option<Seq<usize>>,
}

impl Config {
    /// The values of the settings.
    pub open spec fn settings(&self) -> Settings {
        Settings {
            num_threads: self.num_threads.value(),
            thread_name: match self.thread_name.value() {
                Some(name) => Some(name@),
                None => None,
            },
            thread_stack_size: self.thread_stack_size.value(),
            max_retries: self.max_retries.value(),
            retry_factor: self.retry_factor.value(),
            affinity: match self.affinity.value() {
                Some(cores) => Some(cores@),
                None => None,
            },
        }
    }

    /// Whether every setting is kept in a cell.
    pub open spec fn is_sync(&self) -> bool {
        &&& self.num_threads.is_sync()
        &&& self.thread_name.is_sync()
        &&& self.thread_stack_size.is_sync()
        &&& self.max_retries.is_sync()
        &&& self.retry_factor.is_sync()
        &&& self.affinity.is_sync()
    }

    /// Whether every setting is a plain value.
    pub open spec fn is_unsync(&self) -> bool {
        &&& !self.num_threads.is_sync()
        &&& !self.thread_name.is_sync()
        &&& !self.thread_stack_size.is_sync()
        &&& !self.max_retries.is_sync()
        &&& !self.retry_factor.is_sync()
        &&& !self.affinity.is_sync()
    }

    /// The settings of a live hive: kept in cells, with a number of threads.
    pub open spec fn is_live(&self) -> bool {
        &&& self.is_sync()
        &&& self.num_threads.value() is Some
    }

    /// Settings of which none is set.
    pub fn empty() -> (config: Self)
        ensures
            config.is_unsync(),
            config.settings() == (Settings {
                num_threads: None,
                thread_name: None,
                thread_stack_size: None,
                max_retries: None,
                retry_factor: None,
                affinity: None,
            }),
    {
        Config {
            num_threads: AtomicOption::Unsync(None),
            thread_name: AtomicOption::Unsync(None),
            thread_stack_size: AtomicOption::Unsync(None),
            max_retries: AtomicOption::Unsync(None),
            retry_factor: AtomicOption::Unsync(None),
            affinity: AtomicOption::Unsync(None),
        }
    }

    /// The same settings, kept in cells. A hive without a number of threads gets none: the
    /// number is set to 0.
    pub fn into_sync(self) -> (config: Self)
        ensures
            config.is_sync(),
            config.settings() == (Settings {
                num_threads: Some(
                    match self.num_threads.value() {
                        Some(n) => n,
                        None => 0,
                    },
                ),
                ..self.settings()
            }),
            config.is_live(),
    {
        Config {
            num_threads: self.num_threads.into_sync_default(),
            thread_name: self.thread_name.into_sync(),
            thread_stack_size: self.thread_stack_size.into_sync(),
            max_retries: self.max_retries.into_sync(),
            retry_factor: self.retry_factor.into_sync(),
            affinity: self.affinity.into_sync(),
        }
    }

    /// The same settings, as plain values.
    pub fn into_unsync(self) -> (config: Self)
        ensures
            config.is_unsync(),
            config.settings() == self.settings(),
    {
        Config {
            num_threads: self.num_threads.into_unsync(),
            thread_name: self.thread_name.into_unsync(),
            thread_stack_size: self.thread_stack_size.into_unsync(),
            max_retries: self.max_retries.into_unsync(),
            retry_factor: self.retry_factor.into_unsync(),
            affinity: self.affinity.into_unsync(),
        }
    }
}

impl Clone for Config {
    fn clone(&self) -> (copy: Self)
        ensures
            copy.settings() == self.settings(),
            copy.is_sync() == self.is_sync(),
            copy.is_unsync() == self.is_unsync(),
    {
        Config {
            num_threads: self.num_threads.clone(),
            thread_name: self.thread_name.clone(),
            thread_stack_size: self.thread_stack_size.clone(),
            max_retries: self.max_retries.clone(),
            retry_factor: self.retry_factor.clone(),
            affinity: self.affinity.clone(),
        }
    }
}

impl Default for Config {
    fn default() -> (config: Self)
        ensures
            config.is_unsync(),
            config.settings().num_threads is None,
    {
        Config::empty()
    }
}

} // verus!
