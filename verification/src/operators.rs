//! Execution backends: the dispatching `Operator` enum, the `OperatorT`
//! contract its backends implement, and the backend configurations. The
//! backends here only carry configuration and report their status; spawning a
//! real subprocess is I/O and lives with the embedding program.

pub mod operator;
pub mod python;
pub mod rust;
pub mod shell;
pub mod sql;
