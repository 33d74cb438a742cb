//! The terminal results of tasks, and the map that keeps those that nobody was sent.

pub mod batch;
pub mod ordered;
pub mod outcome;
pub mod store;

pub use batch::OutcomeBatch;
pub use ordered::OrderedOutcomes;
pub use outcome::Outcome;
