//! Fetches a list of sources into local files with bounded parallelism.
//!
//! The library holds the decisions: how a list of lines becomes records, which
//! step of fetching one record comes next, and when the scheduler launches,
//! waits for and reports work. The I/O that carries them out is the caller's.
pub mod record;
pub mod fetch;
pub mod scheduler;
pub mod cli;
