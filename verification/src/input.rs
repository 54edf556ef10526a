//! Embodiment modes: the shared actions that every input mode maps to.

use vstd::prelude::*;
use crate::common::{EntityId, Vec3};

verus! {

/// A high-level action that any embodiment mode (desktop, VR) can produce.
///
/// The kernel and authoring layer consume actions, never raw input events.
#[derive(Clone, Copy, Debug, PartialEq, Eq, Structural)]
pub enum Action {
    /// Move the camera or avatar by a delta.
    Move(Vec3),
    /// Spawn a new entity at the given position.
    SpawnEntity(Vec3),
    /// Despawn the selected entity.
    DespawnEntity(EntityId),
    /// Select an entity for editing.
    Select(EntityId),
    /// Deselect the current selection.
    Deselect,
    /// Undo the last authoring operation.
    Undo,
    /// Redo the last undone operation.
    Redo,
    /// No-op (used for input mapping that hasn't been bound yet).
    Noop,
}

} // verus!
