use worldspace::common::{EntityId, Transform, Vec3};
use worldspace::kernel::world::{World, WorldEvent};
use worldspace::persist::digest::{sha256_hex, to_hex};
use worldspace::persist::snapshot::{EventLog, Snapshot, SnapshotStore};

fn at(x: f32, y: f32, z: f32) -> Transform {
    Transform { position: Vec3::new(x.to_bits(), y.to_bits(), z.to_bits()), ..Transform::default() }
}

#[test]
fn snapshot_capture_and_verify() {
    let mut world = World::with_seed(42);
    world.spawn(Transform::default());
    world.step();

    let snap = Snapshot::capture(&world);
    assert!(snap.verify());
    assert_eq!(snap.tick, 1);
}

#[test]
fn snapshot_corruption_detected() {
    let mut world = World::new();
    world.spawn(Transform::default());

    let mut snap = Snapshot::capture(&world);
    snap.tick = 999; // corrupt the tick
    assert!(!snap.verify());
}

#[test]
fn snapshot_restore_roundtrip() {
    let mut world = World::with_seed(7);
    let id = world.spawn(Transform::default());
    world.step();
    world.step();

    let snap = Snapshot::capture(&world);
    let restored = snap.restore();

    assert_eq!(restored.tick(), world.tick());
    assert_eq!(restored.seed(), world.seed());
    assert_eq!(restored.entity_count(), world.entity_count());
    assert!(restored.get(id).is_some());
}

#[test]
fn event_log_append_and_read() {
    let mut log = EventLog::new();
    assert!(log.is_empty());

    let events = vec![
        WorldEvent::Spawned { id: EntityId::new(), transform: Transform::default() },
        WorldEvent::Stepped { tick: 1, seed: 42 },
    ];
    log.append(&events);
    assert_eq!(log.len(), 2);
}

#[test]
fn snapshot_store_take_and_rollback() {
    let mut store = SnapshotStore::new();
    let mut world = World::with_seed(10);
    world.spawn(Transform::default());
    world.step();

    store.take_snapshot(&world);
    assert_eq!(store.snapshot_count(), 1);

    world.spawn(Transform::default());
    world.step();
    assert_eq!(world.entity_count(), 2);

    let rolled_back = store.rollback(0).unwrap();
    assert_eq!(rolled_back.entity_count(), 1);
}

#[test]
fn snapshot_store_flush_events() {
    let mut store = SnapshotStore::new();
    let mut world = World::new();
    world.spawn(Transform::default());
    world.step();

    store.flush_events(&mut world);
    assert_eq!(store.event_log().len(), 2); // spawn + step
    assert!(world.events().is_empty()); // drained
}

#[test]
fn sha256_hex_known_values() {
    assert_eq!(
        sha256_hex(b"abc"),
        "ba7816bf8f01cfea414140de5dae2223b00361a396177a9cb410ff61f20015ad"
    );
    assert_eq!(
        sha256_hex(b""),
        "e3b0c44298fc1c149afbf4c8996fb92427ae41e4649b934ca495991b7852b855"
    );
}

#[test]
fn hex_is_lower_case_two_digits_per_byte() {
    assert_eq!(to_hex(&[]), "");
    assert_eq!(to_hex(&[0x00, 0x09, 0x0a, 0x0f, 0x10, 0xab, 0xff]), "00090a0f10abff");
}

#[test]
fn snapshot_hash_known_values() {
    // SHA-256 over tick and seed, sixteen zero bytes.
    let snap = Snapshot::capture(&World::new());
    assert_eq!(snap.hash, "374708fff7719dd5979ec875d56cd2286f6d3cf7ec317a3b25632aab28ec37bb");

    // One entity with identifier 1 and the identity transform.
    let mut world = World::new();
    world.spawn_with_id(EntityId(1), Transform::default());
    let snap = Snapshot::capture(&world);
    assert_eq!(snap.hash, "937638f722cd0a87c46043246724021d6e8ff1b4c30643f62843580c0fd4ec86");
    assert_eq!(snap.hash.len(), 64);
}

#[test]
fn snapshot_detects_every_kind_of_change() {
    let mut world = World::with_seed(3);
    world.spawn_with_id(EntityId(5), at(1.0, 2.0, 3.0));
    world.step();
    let snap = Snapshot::capture(&world);
    assert!(snap.verify());

    let mut changed = snap.clone();
    changed.seed ^= 1;
    assert!(!changed.verify());

    let mut changed = snap.clone();
    changed.entities.get_mut(&5).unwrap().transform = at(1.0, 2.0, 3.5);
    assert!(!changed.verify());

    let mut changed = snap.clone();
    changed.entities.remove(&5);
    assert!(!changed.verify());

    let mut changed = snap.clone();
    changed.hash = changed.hash.to_uppercase();
    assert!(!changed.verify());
}

#[test]
fn restore_keeps_tick_state_hash_and_transforms() {
    let mut world = World::with_seed(11);
    world.spawn_with_id(EntityId(2), at(4.0, 5.0, 6.0));
    world.spawn_with_id(EntityId(1), at(1.0, 2.0, 3.0));
    for _ in 0..5 {
        world.step();
    }
    let restored = Snapshot::capture(&world).restore();
    assert_eq!(restored.tick(), 5);
    assert_eq!(restored.seed(), world.seed());
    assert_eq!(restored.state_hash(), world.state_hash());
    assert_eq!(restored.get(EntityId(1)).unwrap().transform, at(1.0, 2.0, 3.0));
    assert_eq!(restored.get(EntityId(2)).unwrap().transform, at(4.0, 5.0, 6.0));
    // Restoring is not an authoring action.
    assert!(restored.events().is_empty());
}

#[test]
fn replay_from_skips_what_the_snapshot_holds() {
    let mut world = World::with_seed(9);
    world.spawn_with_id(EntityId(1), at(1.0, 0.0, 0.0));
    world.step();
    world.step();
    let snap = Snapshot::capture(&world);
    assert_eq!(snap.tick, 2);

    world.spawn_with_id(EntityId(2), at(2.0, 0.0, 0.0));
    world.step();
    world.set_transform(EntityId(1), at(9.0, 0.0, 0.0));
    world.despawn(EntityId(2));
    world.step();

    let mut log = EventLog::new();
    log.append(world.events());
    let replayed = log.replay_from(&snap);

    // The spawn of entity 2 sits between the snapshot and the next Stepped
    // event, so it is skipped together with everything before it.
    assert_eq!(replayed.tick(), 4);
    assert_eq!(replayed.seed(), world.seed());
    assert_eq!(replayed.entity_count(), 1);
    assert_eq!(replayed.get(EntityId(1)).unwrap().transform, at(9.0, 0.0, 0.0));
    assert!(replayed.events().is_empty());
    assert_eq!(replayed.state_hash(), world.state_hash());
}

#[test]
fn replay_from_applies_only_after_a_later_step() {
    let snap = Snapshot::capture(&World::with_seed(1));
    let mut log = EventLog::new();
    log.append(&[
        WorldEvent::Spawned { id: EntityId(1), transform: Transform::default() },
        WorldEvent::Stepped { tick: 0, seed: 77 },
        WorldEvent::Spawned { id: EntityId(2), transform: Transform::default() },
        WorldEvent::Stepped { tick: 1, seed: 78 },
        WorldEvent::Spawned { id: EntityId(3), transform: Transform::default() },
        WorldEvent::Stepped { tick: 0, seed: 79 },
        WorldEvent::Spawned { id: EntityId(4), transform: Transform::default() },
    ]);
    let replayed = log.replay_from(&snap);
    // Only the step past tick 0 counts, and it is recomputed from the seed.
    assert_eq!(replayed.tick(), 1);
    let mut expected = World::with_seed(1);
    expected.step();
    assert_eq!(replayed.seed(), expected.seed());
    assert!(replayed.get(EntityId(1)).is_none());
    assert!(replayed.get(EntityId(2)).is_none());
    assert!(replayed.get(EntityId(3)).is_some());
    assert!(replayed.get(EntityId(4)).is_some());
}

#[test]
fn event_log_keeps_order_and_duplicates() {
    let mut log = EventLog::default();
    let step = WorldEvent::Stepped { tick: 1, seed: 2 };
    log.append(&[step, step]);
    log.append(&[]);
    log.append(&[WorldEvent::Stepped { tick: 2, seed: 3 }]);
    assert_eq!(log.len(), 3);
    assert!(!log.is_empty());
    match log.events()[2] {
        WorldEvent::Stepped { tick, seed } => assert_eq!((tick, seed), (2, 3)),
        _ => panic!("the last event is the last appended"),
    }
}

#[test]
fn snapshot_store_indexes_snapshots_in_order() {
    let mut store = SnapshotStore::default();
    let mut world = World::new();
    assert_eq!(store.take_snapshot(&world), 0);
    world.step();
    assert_eq!(store.take_snapshot(&world), 1);
    assert_eq!(store.get_snapshot(0).unwrap().tick, 0);
    assert_eq!(store.get_snapshot(1).unwrap().tick, 1);
    assert!(store.get_snapshot(2).is_none());
    assert!(store.rollback(2).is_none());
    assert_eq!(store.rollback(1).unwrap().tick(), 1);
}
