//! Batch retrieval engine for remote archives of numbered records.
//!
//! The crate provides the decision logic of a bounded-concurrency download
//! pipeline: a counting permit pool that caps the number of in-flight
//! network calls, a two-phase timeout state machine for a single fetch, a
//! retry driver with a fixed attempt budget, and a batch orchestrator that
//! accounts for every spawned task and reduces a work list to the items
//! whose task did not succeed. The surrounding program performs the actual
//! network and file I/O and drives these components event by event.

pub mod batch;
pub mod config;
pub mod fetch;
pub mod parse;
pub mod permits;
pub mod retry;
