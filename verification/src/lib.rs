//! Core pieces of a multi-threaded, edge-triggered, non-blocking TCP event
//! handler: per-connection write-status tracking, the cross-thread wakeup
//! protocol, the per-worker connection registry, admission control, event
//! dispatch bookkeeping, and the TLS adapter.
//!
//! Everything that decides is here, specified and verified; the operating
//! system calls themselves (sockets, selectors, pipes, threads) are driven by
//! an unverified shell that feeds their results back into these functions.

pub mod config;
pub mod connection;
pub mod bits;
pub mod errors;
pub mod events;
pub mod evh;
pub mod registry;
pub mod rng;
pub mod tls;
pub mod tor;
pub mod wakeup;
pub mod worker;
pub mod write_status;

use vstd::prelude::*;

verus! {

/// Largest number of events one selector wait may hand back.
pub const MAX_EVENTS: usize = 100;

/// Plaintext handed to the TLS record engine is cut into blocks of at most
/// this many bytes.
pub const TLS_CHUNKS: usize = 32768;

/// Byte length of a serialized `HandleInfo`: a 16-byte connection id plus one
/// flag byte.
pub const HANDLE_INFO_SIZE: usize = 17;

} // verus!
