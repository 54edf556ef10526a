//! Persistence: content-hashed snapshots, the append-only event log, and the
//! file-backed store's manifest, hash chain and recovery rules.

use vstd::prelude::*;

pub mod compress;
pub mod digest;
pub mod names;
pub mod snapshot;
pub mod store;

pub use snapshot::{EventLog, Snapshot, SnapshotStore};
pub use store::{IntegrityManifest, ManifestEntry, StoreError, WorldMeta, WorldStore};

verus! {

/// The name and version of the persistence component.
pub fn crate_info() -> (info: &'static str)
    ensures
        info@ == "worldspace-persist v0.1.0"@,
{
    "worldspace-persist v0.1.0"
}

} // verus!
