//! A bounded worker pool for a byte-echo service, modelled and verified.
//!
//! The crate has two parts: [`pool`] models the fixed-size worker pool and
//! its job queue as a state machine whose operations preserve exactly-once
//! delivery of jobs, and [`handler`] holds the per-connection echo logic:
//! what the server decides after each read, and what a whole session writes
//! back. The sockets and threads themselves live outside the library; they
//! hand these functions plain values and carry out the actions they return.

pub mod handler;
pub mod pool;
