//! A durable, at-least-once task queue for long-running operations, kept in
//! a key/value store with lists and hashes.
//!
//! A producer offers a task and gets the id of an operation. A worker pulls
//! the task, which moves the id to an in-flight list, carries it out,
//! completes the operation with a result or an error, and acknowledges the
//! task. A client reads the operation, or waits for it to be done.
//!
//! The crate decides what is sent to the store and what its answers mean;
//! sending is left to the caller. [`queue`] holds the steps of each
//! operation, [`model`] says what the commands do to a store, [`laws`]
//! proves what follows, and [`memory`] is a store that runs the commands
//! in memory.

pub mod broker;
pub mod clock;
pub mod codec;
pub mod context;
pub mod decimal;
pub mod ident;
pub mod laws;
pub mod memory;
pub mod model;
pub mod operation;
pub mod queue;
pub mod service;
pub mod store;
pub mod text;
pub mod timestamp;
pub mod waiter;
