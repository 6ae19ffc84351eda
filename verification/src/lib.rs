//! A single-process job orchestrator library.
//!
//! The library accepts typed work submissions, tracks each job's lifecycle
//! under a fixed concurrency ceiling, and captures per-job output in a
//! bounded log buffer. The slot table, the job state machine and the log
//! buffer are verified; an embedding program supplies the channels, the
//! HTTP boundary and the worker tasks.

pub mod api_error;
pub mod decimal;
pub mod jobs;
pub mod logs;
