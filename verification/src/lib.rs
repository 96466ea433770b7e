//! On-chain course registry: a storage-indexing and query engine layered on a
//! raw keyed store.
//!
//! The persistent substrate offers only single-key `get`/`has`/`set`/`remove`
//! (no secondary indexes, no range scans, no iteration).  On top of it this
//! library builds identifier allocation, position-keyed module storage with
//! duplicate rejection, bounded-scan enumeration with filters and pagination,
//! rate limiting of course creation, and version/migration bookkeeping.
//!
//! Host-supplied facts (ledger time, ledger sequence number, the identity
//! oracle's admin verdict) enter as plain arguments; every state transition
//! and every query is verified against the contracts below.

use vstd::prelude::*;

pub mod access;
pub mod categories;
pub mod deletion;
pub mod goals;
pub mod ids;
pub mod laws;
pub mod modules;
pub mod prereqs;
pub mod profile;
pub mod registry;
pub mod scan;
pub mod schema;
pub mod store;
pub mod versioning;

verus! {

/// Identity of an account, abstracted to an opaque numeric handle.
#[derive(Clone, Copy, Debug, PartialEq, Eq, Structural, Hash)]
pub struct Address(pub u64);

} // verus!
