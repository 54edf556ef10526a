use worldspace::common::{EntityId, Transform, Vec3};
use worldspace::kernel::world::{splitmix64, World, WorldEvent};

fn at(x: f32, y: f32, z: f32) -> Transform {
    Transform { position: Vec3::new(x.to_bits(), y.to_bits(), z.to_bits()), ..Transform::default() }
}

#[test]
fn world_starts_empty() {
    let w = World::new();
    assert_eq!(w.tick(), 0);
    assert_eq!(w.entity_count(), 0);
}

#[test]
fn spawn_and_despawn() {
    let mut w = World::new();
    let id = w.spawn(Transform::default());
    assert_eq!(w.entity_count(), 1);
    assert!(w.get(id).is_some());

    let data = w.despawn(id);
    assert!(data.is_some());
    assert_eq!(w.entity_count(), 0);
}

#[test]
fn step_increments_tick() {
    let mut w = World::new();
    w.step();
    w.step();
    w.step();
    assert_eq!(w.tick(), 3);
}

#[test]
fn deterministic_replay_same_seed() {
    let mut w1 = World::with_seed(42);
    let mut w2 = World::with_seed(42);
    for _ in 0..100 {
        w1.step();
        w2.step();
    }
    assert_eq!(w1.tick(), w2.tick());
    assert_eq!(w1.seed(), w2.seed());
}

#[test]
fn different_seeds_diverge() {
    let mut w1 = World::with_seed(1);
    let mut w2 = World::with_seed(2);
    w1.step();
    w2.step();
    assert_ne!(w1.seed(), w2.seed());
}

#[test]
fn events_are_recorded() {
    let mut w = World::new();
    let id = w.spawn(Transform::default());
    w.step();
    w.despawn(id);
    assert_eq!(w.events().len(), 3); // spawn + step + despawn
}

#[test]
fn drain_events_clears_log() {
    let mut w = World::new();
    w.spawn(Transform::default());
    let events = w.drain_events();
    assert_eq!(events.len(), 1);
    assert!(w.events().is_empty());
}

#[test]
fn set_transform_logs_event() {
    let mut w = World::new();
    let id = w.spawn(Transform::default());
    let new_t = at(1.0, 2.0, 3.0);
    assert!(w.set_transform(id, new_t));
    assert_eq!(w.get(id).unwrap().transform.position, new_t.position);
    // spawn + transform update
    assert_eq!(w.events().len(), 2);
}

#[test]
fn replay_reconstructs_state() {
    let mut w = World::with_seed(7);
    let id = w.spawn(Transform::default());
    let moved = at(5.0, 0.0, 0.0);
    w.set_transform(id, moved);
    w.step();
    w.step();

    let events = w.events().to_vec();
    let replayed = World::replay(&events);

    assert_eq!(replayed.tick(), w.tick());
    assert_eq!(replayed.entity_count(), w.entity_count());
    assert_eq!(
        replayed.get(id).unwrap().transform.position,
        w.get(id).unwrap().transform.position
    );
}

#[test]
fn state_hash_deterministic() {
    let mut w1 = World::with_seed(42);
    let mut w2 = World::with_seed(42);
    let id1 = w1.spawn(Transform::default());
    w2.spawn_with_id(id1, Transform::default());
    w1.step();
    w2.step();
    assert_eq!(w1.state_hash(), w2.state_hash());
}

#[test]
fn btreemap_gives_deterministic_iteration() {
    let mut w = World::with_seed(0);
    let mut ids = Vec::new();
    for _ in 0..100 {
        ids.push(w.spawn(Transform::default()));
    }
    // The ordered map iterates in the order of the identifier values.
    let entity_keys: Vec<EntityId> = w.entities().keys().map(|k| EntityId(*k)).collect();
    let mut sorted = entity_keys.clone();
    sorted.sort();
    assert_eq!(entity_keys, sorted);
}

#[test]
fn replay_equivalence() {
    let mut world = World::with_seed(42);
    let id = world.spawn(Transform::default());
    world.set_transform(id, at(5.0, 0.0, 0.0));
    world.step();
    world.step();

    let events = world.events().to_vec();
    let replayed = World::replay(&events);

    assert_eq!(world.state_hash(), replayed.state_hash());
    assert_eq!(world.tick(), replayed.tick());
    assert_eq!(world.seed(), replayed.seed());
    assert_eq!(world.entity_count(), replayed.entity_count());
}

#[test]
fn replay_equivalence_complex() {
    let mut world = World::with_seed(99);
    let mut ids = Vec::new();
    for i in 0..20 {
        let id = world.spawn(at(i as f32 * 2.0, 0.0, i as f32));
        ids.push(id);
    }
    // Move some entities
    for i in (0..20).step_by(3) {
        world.set_transform(ids[i], at(100.0, i as f32, 0.0));
    }
    // Despawn some
    for i in (1..20).step_by(5) {
        world.despawn(ids[i]);
    }
    // Step several ticks
    for _ in 0..10 {
        world.step();
    }

    let events = world.events().to_vec();
    let replayed = World::replay(&events);
    assert_eq!(world.state_hash(), replayed.state_hash());
}

#[test]
fn splitmix64_known_values() {
    assert_eq!(splitmix64(0), 0xe220_a839_7b1d_cdaf);
    assert_eq!(splitmix64(1), 0x910a_2dec_8902_5cc1);
    assert_eq!(splitmix64(2), 0x9758_35de_1c97_56ce);
    assert_eq!(splitmix64(42), 0xbdd7_3226_2feb_6e95);
}

#[test]
fn step_mixes_the_seed_and_logs_the_result() {
    let mut w = World::with_seed(42);
    w.step();
    assert_eq!(w.tick(), 1);
    assert_eq!(w.seed(), 0xbdd7_3226_2feb_6e95);
    match w.events()[0] {
        WorldEvent::Stepped { tick, seed } => {
            assert_eq!(tick, 1);
            assert_eq!(seed, 0xbdd7_3226_2feb_6e95);
        }
        _ => panic!("a step logs a Stepped event"),
    }
}

#[test]
fn state_hash_known_values() {
    // FNV-1a over sixteen zero bytes: tick 0, seed 0, no entities.
    assert_eq!(World::new().state_hash(), 0x8820_1fb9_60ff_6465);

    let mut stepped = World::with_seed(42);
    stepped.step();
    assert_eq!(stepped.state_hash(), 0x9aae_4c11_990f_9881);

    // One entity with identifier 1 and the identity transform.
    let mut w = World::new();
    w.spawn_with_id(EntityId(1), Transform::default());
    assert_eq!(w.state_hash(), 0xbb14_d39e_a283_9792);
}

#[test]
fn state_hash_ignores_insertion_order() {
    let mut a = World::with_seed(5);
    let mut b = World::with_seed(5);
    a.spawn_with_id(EntityId(10), at(1.0, 0.0, 0.0));
    a.spawn_with_id(EntityId(20), at(2.0, 0.0, 0.0));
    b.spawn_with_id(EntityId(20), at(2.0, 0.0, 0.0));
    b.spawn_with_id(EntityId(10), at(1.0, 0.0, 0.0));
    assert_eq!(a.state_hash(), b.state_hash());
    b.set_transform(EntityId(10), at(1.5, 0.0, 0.0));
    assert_ne!(a.state_hash(), b.state_hash());
}

#[test]
fn despawn_of_absent_entity_logs_nothing() {
    let mut w = World::new();
    assert!(w.despawn(EntityId(9)).is_none());
    assert!(!w.set_transform(EntityId(9), Transform::default()));
    assert!(w.events().is_empty());
    assert_eq!(w.entity_count(), 0);
}

#[test]
fn spawn_with_id_overwrites_and_logs_again() {
    let mut w = World::new();
    w.spawn_with_id(EntityId(1), at(1.0, 0.0, 0.0));
    w.spawn_with_id(EntityId(1), at(2.0, 0.0, 0.0));
    assert_eq!(w.entity_count(), 1);
    assert_eq!(w.get(EntityId(1)).unwrap().transform, at(2.0, 0.0, 0.0));
    assert_eq!(w.events().len(), 2);
}

#[test]
fn events_carry_prior_values() {
    let mut w = World::new();
    w.spawn_with_id(EntityId(1), at(1.0, 0.0, 0.0));
    w.set_transform(EntityId(1), at(2.0, 0.0, 0.0));
    w.despawn(EntityId(1));
    match w.events()[1] {
        WorldEvent::TransformUpdated { id, old, new } => {
            assert_eq!(id, EntityId(1));
            assert_eq!(old, at(1.0, 0.0, 0.0));
            assert_eq!(new, at(2.0, 0.0, 0.0));
        }
        _ => panic!("a move logs a TransformUpdated event"),
    }
    match w.events()[2] {
        WorldEvent::Despawned { id, transform } => {
            assert_eq!(id, EntityId(1));
            assert_eq!(transform, at(2.0, 0.0, 0.0));
        }
        _ => panic!("a despawn logs a Despawned event"),
    }
}

#[test]
fn get_mut_changes_the_entity_without_logging() {
    let mut w = World::new();
    w.spawn_with_id(EntityId(1), Transform::default());
    let logged = w.events().len();
    match w.get_mut(EntityId(1)) {
        Some(data) => data.transform = at(7.0, 8.0, 9.0),
        None => panic!("the entity exists"),
    }
    assert_eq!(w.get(EntityId(1)).unwrap().transform, at(7.0, 8.0, 9.0));
    assert_eq!(w.events().len(), logged);
    assert!(w.get_mut(EntityId(2)).is_none());
}

#[test]
fn replay_with_seed_but_no_step_starts_from_seed_zero() {
    // A replay learns the seed only from Stepped events.
    let mut w = World::with_seed(42);
    w.spawn_with_id(EntityId(1), Transform::default());
    let replayed = World::replay(w.events());
    assert_eq!(replayed.entity_count(), 1);
    assert_eq!(replayed.seed(), 0);
    assert_ne!(replayed.state_hash(), w.state_hash());
    w.step();
    let replayed = World::replay(w.events());
    assert_eq!(replayed.seed(), w.seed());
    assert_eq!(replayed.state_hash(), w.state_hash());
}

#[test]
fn replay_sets_tick_and_seed_from_the_event() {
    let events = vec![WorldEvent::Stepped { tick: 17, seed: 99 }];
    let replayed = World::replay(&events);
    assert_eq!(replayed.tick(), 17);
    assert_eq!(replayed.seed(), 99);
    assert!(replayed.events().is_empty());
}

#[test]
fn set_tick_changes_only_the_tick() {
    let mut w = World::with_seed(3);
    w.spawn_with_id(EntityId(1), Transform::default());
    w.set_tick(12);
    assert_eq!(w.tick(), 12);
    assert_eq!(w.seed(), 3);
    assert_eq!(w.entity_count(), 1);
    assert_eq!(w.events().len(), 1);
}
