//! Contract state range engine and network orchestration core for a
//! blockchain full node.
//!
//! The library has two halves:
//!
//! - a per-contract, 256-bit-keyed state map (`VmDatabase`) that exposes
//!   contiguous ranges of fixed-size slots (read, insert, remove) over a
//!   prefix-ordered key/value store, together with block-context host
//!   queries (block hash, timestamp, height, coinbase);
//! - the pure decision core of a peer-to-peer network orchestrator:
//!   gossip envelopes, event dispatch, and the service lifecycle state
//!   machine. The surrounding event loop and channel plumbing are
//!   asynchronous I/O and live outside the library.

use vstd::prelude::*;

pub mod orchestrator;
pub mod service_state;
pub mod storage;
pub mod u256;
pub mod vm_database;

verus! {

/// Errors surfaced by the state engine and the host queries.
#[derive(Clone, Copy, PartialEq, Eq, Structural, Debug)]
pub enum VmError {
    /// A range operation would run past the end of the 256-bit keyspace.
    KeyspaceOverflow,
    /// A block id or block time was required but is not recorded.
    NotFound,
    /// `timestamp` was queried for a height above the current block height.
    HeightOutOfRange,
}

} // verus!
