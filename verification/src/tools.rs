//! Developer tooling: read-only inspection of the world.

use vstd::prelude::*;

pub mod inspector;

pub use inspector::{EntityInfo, WorldInspector, WorldSummary};

verus! {

/// The name and version of the tooling component.
pub fn crate_info() -> (info: &'static str)
    ensures
        info@ == "worldspace-tools v0.1.0"@,
{
    "worldspace-tools v0.1.0"
}

} // verus!
