//! The authoritative world state and its logged mutations.
//!
//! Every mutator both changes the state and appends the one event that
//! describes the change. The state a mutator leaves behind is always the state
//! obtained by applying that event to the state it found, which is what makes
//! a log replayable.

use vstd::prelude::*;
use std::collections::BTreeMap;
use crate::common::{EntityId, Transform};
use crate::kernel::encoding::{
    be_bytes_u128, fnv1a, le_bytes_u32, le_bytes_u64, lemma_fnv1a_concat, mix_u128_be, mix_u32_le,
    mix_u64_le, push_u128_be, push_u32_le, push_u64_le, FNV_OFFSET_BASIS,
};
use crate::kernel::entities::{entries_in_order, ordered_entries};

verus! {

/// Per-entity data stored in the world.
#[derive(Clone, Copy, Debug)]
pub struct EntityData {
    pub transform: Transform,
}

/// An event record produced by every mutation to the world.
///
/// Each event carries enough to replay the mutation forward; `Despawned` and
/// `TransformUpdated` also carry the prior value so that the mutation can be
/// reversed.
#[derive(Clone, Copy, Debug)]
pub enum WorldEvent {
    /// Entity was spawned with the given transform.
    Spawned { id: EntityId, transform: Transform },
    /// Entity was despawned; carries the transform it had.
    Despawned { id: EntityId, transform: Transform },
    /// Entity transform was updated.
    TransformUpdated { id: EntityId, old: Transform, new: Transform },
    /// Simulation advanced one tick, reaching the given tick and seed.
    Stepped { tick: u64, seed: u64 },
}

/// One splitmix64 step: the deterministic function that advances the seed.
pub open spec fn spec_splitmix64(state: u64) -> u64 {
    let s = state.wrapping_add(0x9e37_79b9_7f4a_7c15);
    let z1 = (s ^ (s >> 30)).wrapping_mul(0xbf58_476d_1ce4_e5b9);
    let z2 = (z1 ^ (z1 >> 27)).wrapping_mul(0x94d0_49bb_1331_11eb);
    z2 ^ (z2 >> 31)
}

/// Advances a seed by one splitmix64 step.
pub fn splitmix64(state: u64) -> (next: u64)
    ensures
        next == spec_splitmix64(state),
{
    let s: u64 = state.wrapping_add(0x9e37_79b9_7f4a_7c15);
    let z1: u64 = (s ^ (s >> 30)).wrapping_mul(0xbf58_476d_1ce4_e5b9);
    let z2: u64 = (z1 ^ (z1 >> 27)).wrapping_mul(0x94d0_49bb_1331_11eb);
    z2 ^ (z2 >> 31)
}

/// What a world holds apart from its event log.
pub struct WorldState {
    /// Entity data by identifier value.
    pub entities: Map<u128, EntityData>,
    /// Number of steps taken.
    pub tick: u64,
    /// Current state of the pseudo-random generator.
    pub seed: u64,
}

/// The bytes of a vector: its three components, little-endian, in x, y, z order.
pub open spec fn vec3_bytes(v: crate::common::Vec3) -> Seq<u8> {
    le_bytes_u32(v.x) + le_bytes_u32(v.y) + le_bytes_u32(v.z)
}

/// The bytes of a quaternion: its components, little-endian, in x, y, z, w order.
pub open spec fn quat_bytes(q: crate::common::Quat) -> Seq<u8> {
    le_bytes_u32(q.x) + le_bytes_u32(q.y) + le_bytes_u32(q.z) + le_bytes_u32(q.w)
}

/// The bytes of a transform: position, then rotation, then scale.
pub open spec fn transform_bytes(t: Transform) -> Seq<u8> {
    vec3_bytes(t.position) + quat_bytes(t.rotation) + vec3_bytes(t.scale)
}

/// The bytes of one entity: its identifier, big-endian, then its transform.
pub open spec fn entity_bytes(entry: (u128, EntityData)) -> Seq<u8> {
    be_bytes_u128(entry.0) + transform_bytes(entry.1.transform)
}

/// The bytes of a listing of entities, one entity after the other.
pub open spec fn entries_bytes(entries: Seq<(u128, EntityData)>) -> Seq<u8>
    decreases entries.len(),
{
    if entries.len() == 0 {
        Seq::empty()
    } else {
        entries_bytes(entries.drop_last()) + entity_bytes(entries.last())
    }
}

/// The canonical byte encoding of `(tick, seed, entities)`: tick and seed as
/// little-endian 64-bit integers, then every entity by ascending identifier.
pub open spec fn canonical_bytes(tick: u64, seed: u64, entities: Map<u128, EntityData>) -> Seq<
    u8,
> {
    le_bytes_u64(tick) + le_bytes_u64(seed) + entries_bytes(ordered_entries(entities))
}

/// Appends the bytes of a transform to `buf`.
fn push_transform(buf: &mut Vec<u8>, t: &Transform)
    ensures
        final(buf)@ == old(buf)@ + transform_bytes(*t),
{
    push_u32_le(buf, t.position.x);
    push_u32_le(buf, t.position.y);
    push_u32_le(buf, t.position.z);
    push_u32_le(buf, t.rotation.x);
    push_u32_le(buf, t.rotation.y);
    push_u32_le(buf, t.rotation.z);
    push_u32_le(buf, t.rotation.w);
    push_u32_le(buf, t.scale.x);
    push_u32_le(buf, t.scale.y);
    push_u32_le(buf, t.scale.z);
    assert(buf@ =~= old(buf)@ + transform_bytes(*t));
}

/// Mixes the bytes of a transform into the FNV-1a state `h`.
fn mix_transform(h: u64, t: &Transform) -> (out: u64)
    ensures
        out == fnv1a(h, transform_bytes(*t)),
{
    let h0 = mix_u32_le(h, t.position.x);
    let h1 = mix_u32_le(h0, t.position.y);
    let h2 = mix_u32_le(h1, t.position.z);
    let h3 = mix_u32_le(h2, t.rotation.x);
    let h4 = mix_u32_le(h3, t.rotation.y);
    let h5 = mix_u32_le(h4, t.rotation.z);
    let h6 = mix_u32_le(h5, t.rotation.w);
    let h7 = mix_u32_le(h6, t.scale.x);
    let h8 = mix_u32_le(h7, t.scale.y);
    let h9 = mix_u32_le(h8, t.scale.z);
    proof {
        let px = le_bytes_u32(t.position.x);
        let py = le_bytes_u32(t.position.y);
        let pz = le_bytes_u32(t.position.z);
        let rx = le_bytes_u32(t.rotation.x);
        let ry = le_bytes_u32(t.rotation.y);
        let rz = le_bytes_u32(t.rotation.z);
        let rw = le_bytes_u32(t.rotation.w);
        let sx = le_bytes_u32(t.scale.x);
        let sy = le_bytes_u32(t.scale.y);
        let sz = le_bytes_u32(t.scale.z);
        lemma_fnv1a_concat(h, px, py);
        lemma_fnv1a_concat(h, px + py, pz);
        lemma_fnv1a_concat(h, px + py + pz, rx);
        lemma_fnv1a_concat(h, px + py + pz + rx, ry);
        lemma_fnv1a_concat(h, px + py + pz + rx + ry, rz);
        lemma_fnv1a_concat(h, px + py + pz + rx + ry + rz, rw);
        lemma_fnv1a_concat(h, px + py + pz + rx + ry + rz + rw, sx);
        lemma_fnv1a_concat(h, px + py + pz + rx + ry + rz + rw + sx, sy);
        lemma_fnv1a_concat(h, px + py + pz + rx + ry + rz + rw + sx + sy, sz);
        assert(transform_bytes(*t) =~= px + py + pz + rx + ry + rz + rw + sx + sy + sz);
    }
    h9
}

/// Writes the canonical byte encoding of `(tick, seed, entities)`.
pub fn encode_canonical(tick: u64, seed: u64, entities: &BTreeMap<u128, EntityData>) -> (out: Vec<
    u8,
>)
    ensures
        out@ == canonical_bytes(tick, seed, entities@),
{
    let mut out: Vec<u8> = Vec::new();
    push_u64_le(&mut out, tick);
    push_u64_le(&mut out, seed);
    let entries = entries_in_order(entities);
    let ghost head = out@;
    assert(head =~= le_bytes_u64(tick) + le_bytes_u64(seed));
    let mut i: usize = 0;
    while i < entries.len()
        invariant
            0 <= i <= entries@.len(),
            out@ == head + entries_bytes(entries@.take(i as int)),
        decreases entries@.len() - i,
    {
        let ghost before = out@;
        push_u128_be(&mut out, entries[i].0);
        push_transform(&mut out, &entries[i].1.transform);
        proof {
            let next = entries@.take(i + 1);
            assert(next.drop_last() =~= entries@.take(i as int));
            assert(next.last() == entries@[i as int]);
            assert(out@ =~= head + entries_bytes(next));
        }
        i = i + 1;
    }
    assert(entries@.take(i as int) =~= entries@);
    out
}

impl WorldState {
    /// The empty world at tick 0 with the given seed.
    pub open spec fn initial(seed: u64) -> WorldState {
        WorldState { entities: Map::empty(), tick: 0, seed }
    }

    /// The data of entity `id`, if it exists.
    pub open spec fn lookup(self, id: EntityId) -> Option<EntityData> {
        if self.entities.contains_key(id.0) {
            Some(self.entities[id.0])
        } else {
            None
        }
    }

    /// The state after the mutation that `event` records.
    ///
    /// `Stepped` sets tick and seed to the recorded values rather than
    /// recomputing them, so applying events is a projection of the log and not
    /// a second simulation.
    pub open spec fn apply(self, event: WorldEvent) -> WorldState {
        match event {
            WorldEvent::Spawned { id, transform } => WorldState {
                entities: self.entities.insert(id.0, EntityData { transform }),
                ..self
            },
            WorldEvent::Despawned { id, transform } => WorldState {
                entities: self.entities.remove(id.0),
                ..self
            },
            WorldEvent::TransformUpdated { id, old, new } => if self.entities.contains_key(id.0) {
                WorldState {
                    entities: self.entities.insert(id.0, EntityData { transform: new }),
                    ..self
                }
            } else {
                self
            },
            WorldEvent::Stepped { tick, seed } => WorldState { tick, seed, ..self },
        }
    }

    /// The state after one simulation step: the tick grows by one and the
    /// seed takes one splitmix64 step.
    pub open spec fn advance(self) -> WorldState {
        WorldState {
            tick: (self.tick + 1) as u64,
            seed: spec_splitmix64(self.seed),
            ..self
        }
    }

    /// The state after applying `events` in order.
    pub open spec fn apply_all(self, events: Seq<WorldEvent>) -> WorldState
        decreases events.len(),
    {
        if events.len() == 0 {
            self
        } else {
            self.apply_all(events.drop_last()).apply(events.last())
        }
    }

    /// The state that replaying `events` into a fresh world produces.
    pub open spec fn replay(events: Seq<WorldEvent>) -> WorldState {
        WorldState::initial(0).apply_all(events)
    }

    /// The fast state hash: FNV-1a over the canonical byte encoding.
    pub open spec fn hash(self) -> u64 {
        fnv1a(FNV_OFFSET_BASIS, canonical_bytes(self.tick, self.seed, self.entities))
    }
}

/// A world as contracts see it: its state and the events logged since the
/// log was last drained.
pub struct WorldView {
    pub state: WorldState,
    pub events: Seq<WorldEvent>,
}

impl WorldView {
    /// A fresh world with the given seed: empty, at tick 0, nothing logged.
    pub open spec fn fresh(seed: u64) -> WorldView {
        WorldView { state: WorldState::initial(seed), events: Seq::empty() }
    }

    /// The world after a mutation that logs `event`.
    pub open spec fn log(self, event: WorldEvent) -> WorldView {
        WorldView { state: self.state.apply(event), events: self.events.push(event) }
    }

    /// The world after spawning `id` with `transform`. An entity that already
    /// has this identifier is overwritten.
    pub open spec fn spawn_with_id(self, id: EntityId, transform: Transform) -> WorldView {
        self.log(WorldEvent::Spawned { id, transform })
    }

    /// The world after despawning `id`: unchanged if `id` is absent.
    pub open spec fn despawn(self, id: EntityId) -> WorldView {
        match self.state.lookup(id) {
            Some(data) => self.log(WorldEvent::Despawned { id, transform: data.transform }),
            None => self,
        }
    }

    /// The world after moving `id` to `new`: unchanged if `id` is absent.
    pub open spec fn set_transform(self, id: EntityId, new: Transform) -> WorldView {
        match self.state.lookup(id) {
            Some(data) => self.log(
                WorldEvent::TransformUpdated { id, old: data.transform, new },
            ),
            None => self,
        }
    }

    /// The world after one simulation step.
    pub open spec fn step(self) -> WorldView {
        self.log(
            WorldEvent::Stepped {
                tick: self.state.advance().tick,
                seed: self.state.advance().seed,
            },
        )
    }
}

/// The authoritative world state.
///
/// Entities are kept in an ordered map keyed by identifier value, so that
/// iteration order, and with it every hash of the state, is the same on every
/// run.
#[derive(Clone, Debug)]
pub struct World {
    entities: BTreeMap<u128, EntityData>,
    tick: u64,
    seed: u64,
    event_log: Vec<WorldEvent>,
}

impl View for World {
    type V = WorldView;

    closed spec fn view(&self) -> WorldView {
        WorldView {
            state: WorldState { entities: self.entities@, tick: self.tick, seed: self.seed },
            events: self.event_log@,
        }
    }
}

/// `BTreeMap::get_mut` on the entity map: a mutable reference to the data
/// stored under `key`, or `None` if the map has no such key.
///
/// The contract says that nothing but that one value can change through the
/// reference: the map after the borrow is the old map with whatever the
/// reference finally holds stored under `key`.
#[verifier::external_body]
fn entry_mut(entities: &mut BTreeMap<u128, EntityData>, key: u128) -> (slot: Option<
    &mut EntityData,
>)
    ensures
        match slot {
            Some(data) => {
                &&& old(entities)@.contains_key(key)
                &&& *data == old(entities)@[key]
                &&& final(entities)@ == old(entities)@.insert(key, *final(data))
            },
            None => !old(entities)@.contains_key(key) && final(entities)@ == old(entities)@,
        },
{
    entities.get_mut(&key)
}

impl World {
    /// Create an empty world at tick 0 with seed 0.
    pub fn new() -> (w: World)
        ensures
            w@ == WorldView::fresh(0),
    {
        World { entities: BTreeMap::new(), tick: 0, seed: 0, event_log: Vec::new() }
    }

    /// Create a world with a specific seed for deterministic replay.
    pub fn with_seed(seed: u64) -> (w: World)
        ensures
            w@ == WorldView::fresh(seed),
    {
        World { entities: BTreeMap::new(), tick: 0, seed, event_log: Vec::new() }
    }

    /// Current simulation tick.
    pub fn tick(&self) -> (t: u64)
        ensures
            t == self@.state.tick,
    {
        self.tick
    }

    /// Current seed.
    pub fn seed(&self) -> (s: u64)
        ensures
            s == self@.state.seed,
    {
        self.seed
    }

    /// Number of entities in the world.
    pub fn entity_count(&self) -> (n: usize)
        ensures
            n == self@.state.entities.len(),
    {
        self.entities.len()
    }

    /// Drain and return the event log.
    pub fn drain_events(&mut self) -> (events: Vec<WorldEvent>)
        ensures
            events@ == old(self)@.events,
            final(self)@.events == Seq::<WorldEvent>::empty(),
            final(self)@.state == old(self)@.state,
    {
        let mut events: Vec<WorldEvent> = Vec::new();
        std::mem::swap(&mut events, &mut self.event_log);
        events
    }

    /// Read-only access to the event log.
    pub fn events(&self) -> (events: &[WorldEvent])
        ensures
            events@ == self@.events,
    {
        self.event_log.as_slice()
    }

    /// Read-only access to all entities, keyed by identifier value.
    pub fn entities(&self) -> (entities: &BTreeMap<u128, EntityData>)
        ensures
            entities@ == self@.state.entities,
    {
        &self.entities
    }

    /// Set the tick directly. Nothing is logged: this is for rebuilding a
    /// world from a snapshot, not for simulation.
    pub fn set_tick(&mut self, tick: u64)
        ensures
            final(self)@.state == (WorldState { tick, ..old(self)@.state }),
            final(self)@.events == old(self)@.events,
    {
        self.tick = tick;
    }

    /// Spawn a new entity with the given transform. Returns its id.
    pub fn spawn(&mut self, transform: Transform) -> (id: EntityId)
        ensures
            id.is_v4(),
            final(self)@ == old(self)@.spawn_with_id(id, transform),
    {
        let id = EntityId::new();
        self.spawn_with_id(id, transform);
        id
    }

    /// Spawn an entity with a specific id.
    pub fn spawn_with_id(&mut self, id: EntityId, transform: Transform)
        ensures
            final(self)@ == old(self)@.spawn_with_id(id, transform),
    {
        self.entities.insert(id.0, EntityData { transform });
        self.event_log.push(WorldEvent::Spawned { id, transform });
    }

    /// Remove an entity. Returns the data if it existed.
    pub fn despawn(&mut self, id: EntityId) -> (data: Option<EntityData>)
        ensures
            data == old(self)@.state.lookup(id),
            final(self)@ == old(self)@.despawn(id),
    {
        let data = self.entities.remove(&id.0);
        match data {
            Some(d) => {
                self.event_log.push(WorldEvent::Despawned { id, transform: d.transform });
            },
            None => {
                assert(self.entities@ =~= old(self).entities@);
            },
        }
        data
    }

    /// Get a reference to entity data.
    pub fn get(&self, id: EntityId) -> (data: Option<&EntityData>)
        ensures
            match data {
                Some(d) => self@.state.lookup(id) == Some(*d),
                None => self@.state.lookup(id) is None,
            },
    {
        self.entities.get(&id.0)
    }

    /// Get a mutable reference to entity data.
    ///
    /// Writing through the reference changes the entity without logging an
    /// event, so a log that must stay replayable is extended with
    /// `set_transform` instead.
    pub fn get_mut(&mut self, id: EntityId) -> (slot: Option<&mut EntityData>)
        ensures
            match slot {
                Some(data) => {
                    &&& old(self)@.state.lookup(id) == Some(*data)
                    &&& final(self)@.state == (WorldState {
                        entities: old(self)@.state.entities.insert(id.0, *final(data)),
                        ..old(self)@.state
                    })
                    &&& final(self)@.events == old(self)@.events
                },
                None => old(self)@.state.lookup(id) is None && final(self)@ == old(self)@,
            },
    {
        entry_mut(&mut self.entities, id.0)
    }

    /// Update an entity's transform and log the change.
    pub fn set_transform(&mut self, id: EntityId, new: Transform) -> (updated: bool)
        ensures
            updated == old(self)@.state.entities.contains_key(id.0),
            final(self)@ == old(self)@.set_transform(id, new),
    {
        let found = match self.entities.get(&id.0) {
            Some(data) => Some(data.transform),
            None => None,
        };
        match found {
            Some(old_transform) => {
                self.entities.insert(id.0, EntityData { transform: new });
                self.event_log.push(
                    WorldEvent::TransformUpdated { id, old: old_transform, new },
                );
                true
            },
            None => false,
        }
    }

    /// Advance the simulation by one tick.
    pub fn step(&mut self)
        requires
            old(self)@.state.tick < u64::MAX,
        ensures
            final(self)@ == old(self)@.step(),
            final(self)@.state == old(self)@.state.advance(),
            final(self)@.state.tick == old(self)@.state.tick + 1,
    {
        self.tick = self.tick + 1;
        self.seed = splitmix64(self.seed);
        self.event_log.push(WorldEvent::Stepped { tick: self.tick, seed: self.seed });
    }

    /// Reconstruct world state from a sequence of events.
    pub fn replay(events: &[WorldEvent]) -> (w: World)
        ensures
            w@.state == WorldState::replay(events@),
            w@.events == Seq::<WorldEvent>::empty(),
    {
        let mut world = World::new();
        let mut i: usize = 0;
        while i < events.len()
            invariant
                0 <= i <= events@.len(),
                world@.state == WorldState::replay(events@.take(i as int)),
                world@.events == Seq::<WorldEvent>::empty(),
            decreases events@.len() - i,
        {
            proof {
                let next = events@.take(i + 1);
                assert(next.drop_last() =~= events@.take(i as int));
                assert(next.last() == events@[i as int]);
            }
            match events[i] {
                WorldEvent::Spawned { id, transform } => {
                    world.entities.insert(id.0, EntityData { transform });
                },
                WorldEvent::Despawned { id, .. } => {
                    world.entities.remove(&id.0);
                },
                WorldEvent::TransformUpdated { id, new, .. } => {
                    if world.entities.contains_key(&id.0) {
                        world.entities.insert(id.0, EntityData { transform: new });
                    }
                },
                WorldEvent::Stepped { tick, seed } => {
                    world.tick = tick;
                    world.seed = seed;
                },
            }
            i = i + 1;
        }
        assert(events@.take(i as int) =~= events@);
        world
    }

    /// Compute a deterministic hash of the world state for comparison: the
    /// FNV-1a mix over the canonical byte encoding, taken without writing the
    /// encoding out.
    pub fn state_hash(&self) -> (h: u64)
        ensures
            h == self@.state.hash(),
    {
        let h0 = mix_u64_le(FNV_OFFSET_BASIS, self.tick);
        let mut h = mix_u64_le(h0, self.seed);
        let entries = entries_in_order(&self.entities);
        let ghost head = le_bytes_u64(self.tick) + le_bytes_u64(self.seed);
        proof {
            lemma_fnv1a_concat(FNV_OFFSET_BASIS, le_bytes_u64(self.tick), le_bytes_u64(self.seed));
            assert(head + entries_bytes(entries@.take(0)) =~= head);
        }
        let mut i: usize = 0;
        while i < entries.len()
            invariant
                0 <= i <= entries@.len(),
                h == fnv1a(FNV_OFFSET_BASIS, head + entries_bytes(entries@.take(i as int))),
            decreases entries@.len() - i,
        {
            let with_id = mix_u128_be(h, entries[i].0);
            proof {
                let done = entries_bytes(entries@.take(i as int));
                let id = be_bytes_u128(entries@[i as int].0);
                let t = transform_bytes(entries@[i as int].1.transform);
                let next = entries@.take(i + 1);
                assert(next.drop_last() =~= entries@.take(i as int));
                assert(next.last() == entries@[i as int]);
                lemma_fnv1a_concat(FNV_OFFSET_BASIS, head + done, id);
                lemma_fnv1a_concat(FNV_OFFSET_BASIS, head + done + id, t);
                assert(head + entries_bytes(next) =~= head + done + id + t);
            }
            h = mix_transform(with_id, &entries[i].1.transform);
            i = i + 1;
        }
        assert(entries@.take(i as int) =~= entries@);
        h
    }
}

impl Default for World {
    fn default() -> (w: World)
        ensures
            w@ == WorldView::fresh(0),
    {
        World::new()
    }
}

} // verus!
