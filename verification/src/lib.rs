//! Pulse: a host telemetry tripwire.
//!
//! A snapshot records a host's process tree and IPv4 TCP connection table.
//! `watch::diff` compares a current snapshot against a baseline and reports
//! the drift (new processes, new external connections, reparented or
//! orphaned processes); classify grades that drift as
//! `Okay` / `Warn` / `Alert`. `cli` holds the decisions of the command line
//! front end. Collection of live host data and JSON handling live outside
//! this library.

pub mod text;
pub mod snapshot;
pub mod watch;
pub mod verdict;
pub mod cli;
