//! A single-process job scheduler: clients register commands to run once, on a
//! recurring interval, or on successful completion of another task, and the
//! scheduling core keeps a task registry and a time-ordered execution queue,
//! handling retries with backoff, interval re-arming, downstream chaining, and
//! graceful (`drain`) or forced (`kill`) removal of tasks.
//!
//! The crate verifies the scheduling core: data model, registry, execution
//! queue, the dispatch state machine driven by execution outcomes, and the
//! client command parser. Running commands in a subprocess and carrying the
//! line protocol over a socket are left to the embedding program, which hands
//! the core plain values (timestamps, outcome flags, command lines) and takes
//! plain values back.

pub mod command;
pub mod errors;
pub mod operators;
pub mod queue;
pub mod schedule;
pub mod scheduler;
pub mod task;
pub mod text;
pub mod unique_id;
