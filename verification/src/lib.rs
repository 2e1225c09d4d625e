//! Synchronizes a directory of markdown articles with a MetaWeblog-style
//! blog service, using one designated remote post (the master record) as the
//! only durable remote storage for the synchronization metadata.
//!
//! The library holds the verified core: the metadata store model, the
//! reconciliation engine that diffs the local store, the remote mirror and
//! the live file listing, the codec that carries the store through a post
//! body, and the run's phase machine. Network and filesystem effects live
//! outside, in the application shell.

pub mod apply;
pub mod cfg;
pub mod clock;
pub mod codec;
pub mod dbfile;
pub mod reconcile;
pub mod master;
pub mod numfmt;
pub mod orchestrator;
pub mod persist;
pub mod rpc;
pub mod scan;
pub mod store;

use vstd::prelude::*;

verus! {

/// Failure of the embedded relational storage layer.
#[derive(PartialEq, Eq, Structural, Clone, Copy, Debug)]
pub enum StoreError {
    /// The underlying database rejected an operation or its bytes.
    Storage,
    /// The stored rows violate the store's uniqueness invariant.
    Corrupt,
    /// The local store's master row is ahead of the remote mirror's.
    LocalAhead,
    /// The transport text is not a valid encoding of any byte sequence.
    Encoding,
}

/// Failure of the transport text codec.
#[derive(PartialEq, Eq, Structural, Clone, Copy, Debug)]
pub enum CodecError {
    /// The text is not a valid transport encoding of any byte sequence.
    InvalidEncoding,
}

} // verus!
