//! Core runtime of a heterogeneous data-movement engine.
//!
//! The library models the task pipeline that connects an extractor, a
//! parallelizer and a pool of sinker workers: the event model, resumable
//! source positions, table filtering, the parallelization strategies that
//! group and dispatch change events, the merge policy that collapses a
//! batch to per-key final states, checkpoint tracking, and the directive
//! builder for the analytical (Foxlake) sink.

pub mod config;
pub mod strutil;
pub mod seqext;
pub mod position;
pub mod stream;
pub mod event;
pub mod filter;
pub mod kv;
pub mod parallel;
pub mod merge;
pub mod checkpoint;
pub mod monitor;
pub mod orchestrator;
pub mod foxlake;
