//! The verified core of a federated consensus server: the state machine a
//! guardian runs to turn a totally-ordered stream of consensus items into a
//! sequence of signed blocks, one per session.
//!
//! The database model (`state`) persists accepted items, transaction
//! hashes, signed blocks and the client-config signature state, and its
//! item processor is proved against an explicit transition function. The
//! binary format (`codec`) is proved to round-trip, the block header
//! (`hashing`) digests the canonical encoding, and the per-session
//! decisions — signature collection, catch-up reconciliation, the startup
//! config-hash cross-check (`session`) — carry exact contracts. The laws
//! the core obeys are stated and proved in `laws`.
//!
//! Outside work — the atomic broadcast, module dispatch, cryptography,
//! timers and the peer API — happens around this crate; its outcomes enter
//! the verified functions as arguments, and the contracts state what is
//! persisted for every outcome.

pub mod codec;
pub mod hashing;
pub mod laws;
pub mod session;
pub mod state;
pub mod types;

use vstd::prelude::*;

verus! {

/// Number of consensus items the submission queue can hold before the
/// API and the proposal ticker block on back-pressure.
pub const TRANSACTION_BUFFER: usize = 1000;

} // verus!
