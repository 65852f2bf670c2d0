//! Write-broadcast and live-query core of a node agent for a peer-to-peer,
//! eventually consistent relational store.
//!
//! Every local write is executed by a serialized writer, tagged with the
//! node's actor identity and a fresh per-actor version, recorded in a
//! bookkeeping ledger, and emitted to peers as a stream of bounded change
//! frames. Long-lived client subscriptions receive an initial snapshot
//! followed by incremental row deltas.

pub mod api;
pub mod bookkeeping;
pub mod change;
pub mod chunker;
pub mod json;
pub mod schema;
pub mod watch;
pub mod writer;

use vstd::prelude::*;

verus! {

/// Maximum number of change records carried by one broadcast frame.
pub const MAX_CHANGES_PER_MESSAGE: usize = 50;

} // verus!
