//! A per-worker serving bridge between a network listener and a
//! single-threaded script engine.
//!
//! Each worker owns one [`bridge::Bridge`]: a bounded FIFO of pending
//! requests, a table of opaque handles, and an arena of one-shot completion
//! slots. The network side submits requests and waits on tickets; the engine
//! side opens the inbox, polls for requests and completes them by handle.
//! Nothing here blocks: an operation that would have to wait says so in its
//! result, and the caller suspends and retries.

pub mod access;
pub mod bridge;
pub mod error;
pub mod laws;
pub mod queue;
pub mod reload;
pub mod request;
pub mod slot;
pub mod stages;
pub mod state;
pub mod table;
pub mod watcher;
