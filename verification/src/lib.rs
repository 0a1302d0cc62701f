//! A verified core for a sequential flow runner.
//!
//! A flow is an ordered list of shell steps. The library carries the logic
//! that decides and records a run: execution policies that gate each step on
//! prior outcomes, the Running/Failed state machine with hook semantics, the
//! environment that accumulates across steps (last write wins), the capture
//! of a child's two output streams into tagged chunks, and the fan-out of
//! each chunk to an ordered list of sinks. Process launching and file I/O
//! stay outside; the library takes their outcomes as plain values.

pub mod env;
pub mod output;
pub mod capture;
pub mod execution;
