//! Streaming: grid partition of the world and per-frame cell streaming
//! budgets.

use vstd::prelude::*;

pub mod budget;
pub mod grid;
pub mod timer;

pub use budget::{StreamConfig, StreamState, StreamStats};
pub use grid::{CellCoord, GridPartition};
pub use timer::{FrameTime, FrameTimer};

verus! {

/// The name and version of the streaming component.
pub fn crate_info() -> (info: &'static str)
    ensures
        info@ == "worldspace-stream v0.1.0"@,
{
    "worldspace-stream v0.1.0"
}

} // verus!
