//! The coordination core of a worker pool.
//!
//! A hive runs a stream of inputs through a user-supplied processor on a set of worker
//! threads. This crate holds the state that the submitters, the workers and the observers of
//! a hive agree on, and every rule by which that state changes: how tasks are admitted and
//! numbered, how the queued and active counts move, what suspending and poisoning do, when a
//! failed task is retried and after which delay, where an outcome goes, and how a drained
//! hive is kept as a husk and brought back.
//!
//! The state is single-threaded: every operation takes it by `&mut` and is one indivisible
//! step. A program that runs workers on threads keeps the state behind one lock and performs
//! what the steps tell it to (wake the waiting threads, wait for a task, spawn a thread).

pub mod atomic;
pub mod bee;
pub mod hive;
