//! Core of a peer-to-peer liveness-monitoring grid.
//!
//! A fixed roster of named nodes probes one another over HTTP. When a peer
//! stops answering, the observers exchange obituaries and elect, by a
//! deterministic ordering of random rolls, exactly one survivor to publish
//! the death announcement. Operators can silence the monitoring of a node
//! for a while; silences are gossiped so the whole grid honors them.
//!
//! This crate holds the protocol logic: the per-peer failure counter, the
//! silence store, the obituary confirmation bookkeeping, the announcer
//! election, and the parsing rules for operator input. The surrounding
//! process (HTTP client and server, the scheduler, configuration files)
//! hands plain values in and carries the decisions out.

pub mod announce;
pub mod config;
pub mod election;
mod entropy;
pub mod grid;
pub mod numparse;
pub mod order;
pub mod silence;
pub mod timeparse;
pub mod tracker;
pub mod wire;

use vstd::prelude::*;

verus! {

/// Number of consecutive failed probes after which a peer counts as dead.
pub const DEAD_AFTER: usize = 3;

} // verus!
