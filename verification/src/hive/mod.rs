//! The hive: its counters, queues, outcomes and life cycle.

pub mod accounting;
pub mod builder;
pub mod channel;
pub mod config;
pub mod cores;
pub mod counter;
pub mod hive;
pub mod husk;
pub mod outcome;
pub mod protocol;
pub mod retry;
pub mod shared;
pub mod state;
pub mod task;

pub use builder::Builder;
pub use config::{Config, Settings};
pub use cores::{Core, Cores};
pub use counter::{CounterError, DualCounter};
pub use hive::Hive;
pub use husk::Husk;
pub use outcome::{OrderedOutcomes, Outcome, OutcomeBatch};
pub use retry::RetryQueue;
pub use shared::{NextTaskError, Shared, ThreadSettings, RECV_TIMEOUT};
pub use state::HiveState;
pub use task::{OutcomeSender, Task};
