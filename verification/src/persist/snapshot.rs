//! Content-hashed snapshots of the world, the append-only event log, and an
//! in-memory snapshot store.

use vstd::prelude::*;
use std::collections::BTreeMap;
use crate::common::EntityId;
use crate::kernel::entities::{entries_in_order, lists};
use crate::kernel::world::{
    canonical_bytes, encode_canonical, EntityData, World, WorldEvent, WorldState, WorldView,
};
use crate::persist::digest::{content_digest, sha256_hex};

verus! {

/// The content hash of a captured state: the digest of the canonical byte
/// encoding of `(tick, seed, entities)`.
pub open spec fn state_digest(state: WorldState) -> Seq<char> {
    content_digest(canonical_bytes(state.tick, state.seed, state.entities))
}

/// A content-addressed snapshot of the world state at a specific tick.
#[derive(Clone, Debug)]
pub struct Snapshot {
    /// The tick at which this snapshot was taken.
    pub tick: u64,
    /// The seed at snapshot time.
    pub seed: u64,
    /// Entity data keyed by identifier value.
    pub entities: BTreeMap<u128, EntityData>,
    /// SHA-256 of the canonical encoding, hex encoded.
    pub hash: String,
}

impl Snapshot {
    /// The world state that the snapshot holds.
    pub open spec fn state(&self) -> WorldState {
        WorldState { entities: self.entities@, tick: self.tick, seed: self.seed }
    }

    /// The stored hash is the hash of the stored state.
    pub open spec fn intact(&self) -> bool {
        self.hash@ == state_digest(self.state())
    }

    /// The snapshot holds the state of `world` under its true hash.
    pub open spec fn is_capture_of(&self, world: WorldView) -> bool {
        self.state() == world.state && self.intact()
    }

    /// The world that restoring the snapshot gives: the stored state and an
    /// empty event log. The tick is preserved.
    pub open spec fn restored(&self) -> WorldView {
        WorldView { state: self.state(), events: Seq::empty() }
    }

    fn compute_hash(tick: u64, seed: u64, entities: &BTreeMap<u128, EntityData>) -> (hash: String)
        ensures
            hash@ == state_digest(WorldState { entities: entities@, tick, seed }),
    {
        let bytes = encode_canonical(tick, seed, entities);
        sha256_hex(bytes.as_slice())
    }

    /// Create a snapshot from the current world state.
    pub fn capture(world: &World) -> (snapshot: Snapshot)
        ensures
            snapshot.is_capture_of(world@),
    {
        let entities = world.entities().clone();
        let tick = world.tick();
        let seed = world.seed();
        let hash = Snapshot::compute_hash(tick, seed, &entities);
        Snapshot { tick, seed, entities, hash }
    }

    /// Verify the snapshot integrity by recomputing the hash.
    pub fn verify(&self) -> (ok: bool)
        ensures
            ok == self.intact(),
    {
        let expected = Snapshot::compute_hash(self.tick, self.seed, &self.entities);
        self.hash == expected
    }

    /// Restore a world from this snapshot. Restoring is not an authoring
    /// action: the restored world's event log is empty.
    pub fn restore(&self) -> (world: World)
        ensures
            world@ == self.restored(),
    {
        let mut world = World::with_seed(self.seed);
        world.set_tick(self.tick);
        let entries = entries_in_order(&self.entities);
        let mut i: usize = 0;
        while i < entries.len()
            invariant
                0 <= i <= entries@.len(),
                lists(entries@, self.entities@),
                world@.state.tick == self.tick,
                world@.state.seed == self.seed,
                forall|k: u128|
                    world@.state.entities.contains_key(k) <==> exists|j: int|
                        0 <= j < i && #[trigger] entries@[j].0 == k,
                forall|k: u128|
                    world@.state.entities.contains_key(k) ==> world@.state.entities[k]
                        == self.entities@[k],
            decreases entries@.len() - i,
        {
            let ghost before = world@.state.entities;
            let key = entries[i].0;
            world.spawn_with_id(EntityId(key), entries[i].1.transform);
            proof {
                assert(world@.state.entities == before.insert(key, entries@[i as int].1));
                assert forall|k: u128|
                    world@.state.entities.contains_key(k) <==> exists|j: int|
                        0 <= j < i + 1 && #[trigger] entries@[j].0 == k by {
                    if world@.state.entities.contains_key(k) {
                        if k == key {
                            assert(entries@[i as int].0 == k);
                        } else {
                            assert(before.contains_key(k));
                        }
                    }
                }
            }
            i = i + 1;
        }
        world.drain_events();
        proof {
            assert forall|k: u128|
                world@.state.entities.contains_key(k) <==> self.entities@.contains_key(k) by {
                if self.entities@.contains_key(k) {
                    let j = choose|j: int| 0 <= j < entries@.len() && #[trigger] entries@[j].0 == k;
                    assert(entries@[j].0 == k);
                }
            }
            assert(world@.state.entities =~= self.entities@);
        }
        world
    }
}

/// Snapshot round-trip: restoring a capture of a world gives a world with the
/// same entities (and so the same entity count and per-entity transforms),
/// the same seed and the same tick, with an empty event log; and a capture
/// passes its own verification.
pub proof fn lemma_capture_restore_roundtrip(world: WorldView, snapshot: Snapshot)
    requires
        snapshot.is_capture_of(world),
    ensures
        snapshot.intact(),
        snapshot.restored().state == world.state,
        snapshot.restored().state.entities.len() == world.state.entities.len(),
        snapshot.restored().state.hash() == world.state.hash(),
        snapshot.restored().events.len() == 0,
{
}

/// Progress of a replay that continues from a snapshot: the state reached so
/// far, and whether a `Stepped` record past the snapshot's tick has been seen.
pub struct Resume {
    pub state: WorldState,
    pub unlocked: bool,
}

/// Where a replay starts: the snapshot's state, with nothing unlocked.
pub open spec fn resume_start(state: WorldState) -> Resume {
    Resume { state, unlocked: false }
}

/// `event` is a `Stepped` record for a tick after `boundary`.
pub open spec fn steps_past(event: WorldEvent, boundary: u64) -> bool {
    event is Stepped && event->tick > boundary
}

/// One event of a replay that continues from a snapshot taken at tick
/// `boundary`.
///
/// A `Stepped` record for a tick up to `boundary` is skipped and unlocks
/// nothing. A `Stepped` record past `boundary` advances the world by one step
/// and unlocks the events that follow. Any other event is applied if a
/// `Stepped` record past `boundary` came before it, and skipped otherwise:
/// such events carry no tick, so their place in the log is all that dates
/// them.
pub open spec fn resume_one(r: Resume, boundary: u64, event: WorldEvent) -> Resume {
    if event is Stepped {
        if steps_past(event, boundary) {
            Resume { state: r.state.advance(), unlocked: true }
        } else {
            r
        }
    } else if r.unlocked {
        Resume { state: r.state.apply(event), unlocked: true }
    } else {
        r
    }
}

/// A replay that continues from `r` over `events`, in order.
pub open spec fn resume_all(r: Resume, boundary: u64, events: Seq<WorldEvent>) -> Resume
    decreases events.len(),
{
    if events.len() == 0 {
        r
    } else {
        resume_one(resume_all(r, boundary, events.drop_last()), boundary, events.last())
    }
}

/// No step of the replay would take the tick past the largest 64-bit value.
pub open spec fn resume_fits(r: Resume, boundary: u64, events: Seq<WorldEvent>) -> bool {
    forall|k: int|
        0 <= k < events.len() && steps_past(#[trigger] events[k], boundary) ==> resume_all(
            r,
            boundary,
            events.take(k),
        ).state.tick < u64::MAX
}

/// The state that replaying `events` on top of a snapshot of `state` gives.
pub open spec fn replay_after(state: WorldState, events: Seq<WorldEvent>) -> WorldState {
    resume_all(resume_start(state), state.tick, events).state
}

/// Replaying a concatenation is replaying the first part and continuing with
/// the second.
pub proof fn lemma_resume_concat(
    r: Resume,
    boundary: u64,
    first: Seq<WorldEvent>,
    second: Seq<WorldEvent>,
)
    ensures
        resume_all(r, boundary, first + second) == resume_all(
            resume_all(r, boundary, first),
            boundary,
            second,
        ),
    decreases second.len(),
{
    if second.len() == 0 {
        assert(first + second =~= first);
    } else {
        assert((first + second).drop_last() =~= first + second.drop_last());
        lemma_resume_concat(r, boundary, first, second.drop_last());
    }
}

/// A replay takes at most one step per event.
pub proof fn lemma_resume_tick_bound(r: Resume, boundary: u64, events: Seq<WorldEvent>)
    requires
        r.state.tick + events.len() <= u64::MAX,
    ensures
        resume_all(r, boundary, events).state.tick <= r.state.tick + events.len(),
        resume_fits(r, boundary, events),
    decreases events.len(),
{
    if events.len() > 0 {
        lemma_resume_tick_bound(r, boundary, events.drop_last());
        assert forall|k: int|
            0 <= k < events.len() && steps_past(#[trigger] events[k], boundary) implies resume_all(
            r,
            boundary,
            events.take(k),
        ).state.tick < u64::MAX by {
            lemma_resume_tick_bound(r, boundary, events.take(k));
        }
    }
}

/// Continues a replay on `world` over `events` and returns whether later
/// events are unlocked. What the world logs on the way is left to the caller
/// to drain.
pub(crate) fn resume_onto(
    world: &mut World,
    unlocked: bool,
    boundary: u64,
    events: &[WorldEvent],
) -> (now_unlocked: bool)
    requires
        resume_fits(Resume { state: old(world)@.state, unlocked }, boundary, events@),
    ensures
        (Resume { state: final(world)@.state, unlocked: now_unlocked }) == resume_all(
            Resume { state: old(world)@.state, unlocked },
            boundary,
            events@,
        ),
{
    let ghost start = Resume { state: world@.state, unlocked };
    let mut past = unlocked;
    let mut i: usize = 0;
    while i < events.len()
        invariant
            0 <= i <= events@.len(),
            resume_fits(start, boundary, events@),
            (Resume { state: world@.state, unlocked: past }) == resume_all(
                start,
                boundary,
                events@.take(i as int),
            ),
        decreases events@.len() - i,
    {
        proof {
            let next = events@.take(i + 1);
            assert(next.drop_last() =~= events@.take(i as int));
            assert(next.last() == events@[i as int]);
        }
        let ghost before = world@.state;
        match events[i] {
            WorldEvent::Stepped { tick, .. } => {
                if tick > boundary {
                    assert(steps_past(events@[i as int], boundary));
                    past = true;
                    world.step();
                }
            },
            WorldEvent::Spawned { id, transform } => {
                if past {
                    world.spawn_with_id(id, transform);
                }
            },
            WorldEvent::Despawned { id, .. } => {
                if past {
                    world.despawn(id);
                    assert(world@.state.entities =~= before.apply(events@[i as int]).entities);
                }
            },
            WorldEvent::TransformUpdated { id, new, .. } => {
                if past {
                    world.set_transform(id, new);
                    assert(world@.state.entities =~= before.apply(events@[i as int]).entities);
                }
            },
        }
        i = i + 1;
    }
    assert(events@.take(i as int) =~= events@);
    past
}

/// Append-only event log for persistence and replay.
#[derive(Clone, Debug)]
pub struct EventLog {
    events: Vec<WorldEvent>,
}

impl View for EventLog {
    type V = Seq<WorldEvent>;

    closed spec fn view(&self) -> Seq<WorldEvent> {
        self.events@
    }
}

impl EventLog {
    /// Create an empty event log.
    pub fn new() -> (log: EventLog)
        ensures
            log@ == Seq::<WorldEvent>::empty(),
    {
        EventLog { events: Vec::new() }
    }

    /// Append events to the log, in order. Nothing already in the log changes.
    pub fn append(&mut self, events: &[WorldEvent])
        ensures
            final(self)@ == old(self)@ + events@,
    {
        let mut i: usize = 0;
        while i < events.len()
            invariant
                0 <= i <= events@.len(),
                self@ == old(self)@ + events@.take(i as int),
            decreases events@.len() - i,
        {
            self.events.push(events[i]);
            assert(self@ =~= old(self)@ + events@.take(i + 1));
            i = i + 1;
        }
        assert(events@.take(i as int) =~= events@);
    }

    /// Number of events in the log.
    pub fn len(&self) -> (n: usize)
        ensures
            n == self@.len(),
    {
        self.events.len()
    }

    /// Whether the log is empty.
    pub fn is_empty(&self) -> (empty: bool)
        ensures
            empty == (self@.len() == 0),
    {
        self.events.len() == 0
    }

    /// Read-only access to all events.
    pub fn events(&self) -> (events: &[WorldEvent])
        ensures
            events@ == self@,
    {
        self.events.as_slice()
    }

    /// Replay events after a snapshot to reconstruct world state.
    ///
    /// Events up to the first `Stepped` record past the snapshot's tick are
    /// already part of the snapshot and are skipped. The returned world's
    /// event log is empty.
    pub fn replay_from(&self, snapshot: &Snapshot) -> (world: World)
        requires
            resume_fits(resume_start(snapshot.state()), snapshot.tick, self@),
        ensures
            world@.state == replay_after(snapshot.state(), self@),
            world@.events == Seq::<WorldEvent>::empty(),
    {
        let mut world = snapshot.restore();
        resume_onto(&mut world, false, snapshot.tick, self.events.as_slice());
        world.drain_events();
        world
    }
}

impl Default for EventLog {
    fn default() -> (log: EventLog)
        ensures
            log@ == Seq::<WorldEvent>::empty(),
    {
        EventLog::new()
    }
}

/// In-memory snapshot store: a list of snapshots and one event log.
#[derive(Debug)]
pub struct SnapshotStore {
    snapshots: Vec<Snapshot>,
    log: EventLog,
}

impl SnapshotStore {
    /// The snapshots taken so far, oldest first.
    pub closed spec fn snapshots(&self) -> Seq<Snapshot> {
        self.snapshots@
    }

    /// The events flushed so far.
    pub closed spec fn logged(&self) -> Seq<WorldEvent> {
        self.log@
    }

    /// Create an empty store.
    pub fn new() -> (store: SnapshotStore)
        ensures
            store.snapshots() == Seq::<Snapshot>::empty(),
            store.logged() == Seq::<WorldEvent>::empty(),
    {
        SnapshotStore { snapshots: Vec::new(), log: EventLog::new() }
    }

    /// Take a snapshot of the current world and store it. Returns its index.
    pub fn take_snapshot(&mut self, world: &World) -> (index: usize)
        ensures
            index == old(self).snapshots().len(),
            final(self).snapshots().len() == index + 1,
            final(self).snapshots().drop_last() == old(self).snapshots(),
            final(self).snapshots().last().is_capture_of(world@),
            final(self).logged() == old(self).logged(),
    {
        let snapshot = Snapshot::capture(world);
        self.snapshots.push(snapshot);
        assert(self.snapshots@.drop_last() =~= old(self).snapshots@);
        self.snapshots.len() - 1
    }

    /// Flush pending events from the world into the log.
    pub fn flush_events(&mut self, world: &mut World)
        ensures
            final(self).logged() == old(self).logged() + old(world)@.events,
            final(self).snapshots() == old(self).snapshots(),
            final(world)@.events == Seq::<WorldEvent>::empty(),
            final(world)@.state == old(world)@.state,
    {
        let events = world.drain_events();
        self.log.append(events.as_slice());
    }

    /// Number of snapshots stored.
    pub fn snapshot_count(&self) -> (n: usize)
        ensures
            n == self.snapshots().len(),
    {
        self.snapshots.len()
    }

    /// Get a snapshot by index.
    pub fn get_snapshot(&self, index: usize) -> (snapshot: Option<&Snapshot>)
        ensures
            match snapshot {
                Some(s) => index < self.snapshots().len() && *s == self.snapshots()[index as int],
                None => index >= self.snapshots().len(),
            },
    {
        if index < self.snapshots.len() {
            Some(&self.snapshots[index])
        } else {
            None
        }
    }

    /// Access the event log.
    pub fn event_log(&self) -> (log: &EventLog)
        ensures
            log@ == self.logged(),
    {
        &self.log
    }

    /// Rebuild the world as it was at a snapshot. `None` if there is no
    /// snapshot with this index.
    pub fn rollback(&self, snapshot_index: usize) -> (world: Option<World>)
        ensures
            match world {
                Some(w) => snapshot_index < self.snapshots().len() && w@
                    == self.snapshots()[snapshot_index as int].restored(),
                None => snapshot_index >= self.snapshots().len(),
            },
    {
        if snapshot_index < self.snapshots.len() {
            Some(self.snapshots[snapshot_index].restore())
        } else {
            None
        }
    }
}

impl Default for SnapshotStore {
    fn default() -> (store: SnapshotStore)
        ensures
            store.snapshots() == Seq::<Snapshot>::empty(),
            store.logged() == Seq::<WorldEvent>::empty(),
    {
        SnapshotStore::new()
    }
}

} // verus!
