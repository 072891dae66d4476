//! Verified core of a worker-process supervisor.
//!
//! The library holds the restart-policy signalling cell, the per-process
//! supervision state machine, the argument builder, the line collector, the
//! timestamp formatter and the run-report codec. The asynchronous shell that
//! spawns children and performs file I/O lives outside the library and calls
//! into it with plain values.

pub mod args;
pub mod collector;
pub mod fmt;
pub mod mode;
pub mod report;
pub mod supervisor;
pub mod text;
