//! In-world authoring: reversible edit commands with undo and redo.

use vstd::prelude::*;

pub mod editor;

pub use editor::{EditCommand, EditError, Editor};

verus! {

/// The name and version of the authoring component.
pub fn crate_info() -> (info: &'static str)
    ensures
        info@ == "worldspace-author v0.1.0"@,
{
    "worldspace-author v0.1.0"
}

} // verus!
