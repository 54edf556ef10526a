//! World inspector: summaries and per-entity views for debugging.

use vstd::prelude::*;
use crate::common::{EntityId, Transform};
use crate::kernel::entities::{entries_in_order, ordered_entries};
use crate::kernel::world::{EntityData, World, WorldView};
use crate::text::{decimal, push_decimal};

verus! {

/// World inspector for developer tooling.
///
/// Provides read-only queries against the world state.
#[derive(Clone, Copy, Debug)]
pub struct WorldInspector;

/// Summary of world state for the inspector.
#[derive(Clone, Copy, Debug, PartialEq, Eq, Structural)]
pub struct WorldSummary {
    pub tick: u64,
    pub seed: u64,
    pub entity_count: usize,
    pub pending_events: usize,
}

/// Detailed info about a single entity. Components are binary32 values held
/// as their bit patterns.
#[derive(Clone, Copy, Debug)]
pub struct EntityInfo {
    pub id: EntityId,
    pub position: [u32; 3],
    pub rotation: [u32; 4],
    pub scale: [u32; 3],
}

/// The position of a transform as `[x, y, z]`.
pub open spec fn position_of(t: Transform) -> Seq<u32> {
    seq![t.position.x, t.position.y, t.position.z]
}

/// The rotation of a transform as `[x, y, z, w]`.
pub open spec fn rotation_of(t: Transform) -> Seq<u32> {
    seq![t.rotation.x, t.rotation.y, t.rotation.z, t.rotation.w]
}

/// The scale of a transform as `[x, y, z]`.
pub open spec fn scale_of(t: Transform) -> Seq<u32> {
    seq![t.scale.x, t.scale.y, t.scale.z]
}

impl EntityInfo {
    /// The info shows entity `id` with transform `t`.
    pub open spec fn shows(self, id: EntityId, t: Transform) -> bool {
        &&& self.id == id
        &&& self.position@ == position_of(t)
        &&& self.rotation@ == rotation_of(t)
        &&& self.scale@ == scale_of(t)
    }
}

/// The identifiers of a world's entities in ascending order.
pub open spec fn entity_ids(world: WorldView) -> Seq<EntityId> {
    ordered_entries(world.state.entities).map_values(|e: (u128, EntityData)| EntityId(e.0))
}

impl WorldSummary {
    /// The summary of a world.
    pub open spec fn of(world: WorldView) -> WorldSummary {
        WorldSummary {
            tick: world.state.tick,
            seed: world.state.seed,
            entity_count: world.state.entities.len() as usize,
            pending_events: world.events.len() as usize,
        }
    }

    /// The summary as one line of text.
    pub open spec fn text(self) -> Seq<char> {
        "World: tick="@ + decimal(self.tick as nat) + " seed="@ + decimal(self.seed as nat)
            + " entities="@ + decimal(self.entity_count as nat) + " pending_events="@ + decimal(
            self.pending_events as nat,
        )
    }

    /// Writes the summary as one line of text.
    pub fn to_string(&self) -> (line: String)
        ensures
            line@ == self.text(),
    {
        let mut line = String::new();
        line.push_str("World: tick=");
        push_decimal(&mut line, self.tick);
        line.push_str(" seed=");
        push_decimal(&mut line, self.seed);
        line.push_str(" entities=");
        push_decimal(&mut line, self.entity_count as u64);
        line.push_str(" pending_events=");
        push_decimal(&mut line, self.pending_events as u64);
        assert(line@ =~= self.text());
        line
    }
}

impl WorldInspector {
    /// Produce a summary of the world state.
    pub fn summary(world: &World) -> (summary: WorldSummary)
        ensures
            summary == WorldSummary::of(world@),
    {
        WorldSummary {
            tick: world.tick(),
            seed: world.seed(),
            entity_count: world.entity_count(),
            pending_events: world.events().len(),
        }
    }

    /// Get the transform of a specific entity, component by component.
    pub fn inspect_entity(world: &World, id: EntityId) -> (info: Option<EntityInfo>)
        ensures
            match info {
                Some(i) => world@.state.entities.contains_key(id.0) && i.shows(
                    id,
                    world@.state.entities[id.0].transform,
                ),
                None => !world@.state.entities.contains_key(id.0),
            },
    {
        match world.get(id) {
            Some(data) => {
                let p = data.transform.position;
                let r = data.transform.rotation;
                let s = data.transform.scale;
                let info = EntityInfo {
                    id,
                    position: [p.x, p.y, p.z],
                    rotation: [r.x, r.y, r.z, r.w],
                    scale: [s.x, s.y, s.z],
                };
                proof {
                    assert(info.position@ =~= position_of(data.transform));
                    assert(info.rotation@ =~= rotation_of(data.transform));
                    assert(info.scale@ =~= scale_of(data.transform));
                }
                Some(info)
            },
            None => None,
        }
    }

    /// List all entity IDs in the world, in ascending order.
    pub fn list_entities(world: &World) -> (ids: Vec<EntityId>)
        ensures
            ids@ == entity_ids(world@),
    {
        let entries = entries_in_order(world.entities());
        let mut ids: Vec<EntityId> = Vec::new();
        let mut i: usize = 0;
        while i < entries.len()
            invariant
                0 <= i <= entries@.len(),
                entries@ == ordered_entries(world@.state.entities),
                ids@.len() == i,
                forall|j: int| 0 <= j < i ==> ids@[j] == EntityId(entries@[j].0),
            decreases entries@.len() - i,
        {
            ids.push(EntityId(entries[i].0));
            i = i + 1;
        }
        assert(ids@ =~= entity_ids(world@));
        ids
    }
}

} // verus!
