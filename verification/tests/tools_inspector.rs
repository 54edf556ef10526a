use worldspace::common::{EntityId, Transform, Vec3};
use worldspace::kernel::world::World;
use worldspace::tools::inspector::{WorldInspector, WorldSummary};

#[test]
fn summary_empty_world() {
    let world = World::new();
    let summary = WorldInspector::summary(&world);
    assert_eq!(summary.tick, 0);
    assert_eq!(summary.entity_count, 0);
}

#[test]
fn summary_with_entities() {
    let mut world = World::new();
    world.spawn(Transform::default());
    world.spawn(Transform::default());
    world.step();

    let summary = WorldInspector::summary(&world);
    assert_eq!(summary.tick, 1);
    assert_eq!(summary.entity_count, 2);
    assert_eq!(summary.pending_events, 3); // 2 spawns + 1 step
}

#[test]
fn inspect_entity_found() {
    let mut world = World::new();
    let id = world.spawn(Transform {
        position: Vec3::new(1.0f32.to_bits(), 2.0f32.to_bits(), 3.0f32.to_bits()),
        ..Transform::default()
    });

    let info = WorldInspector::inspect_entity(&world, id).unwrap();
    assert_eq!(info.position, [1.0f32.to_bits(), 2.0f32.to_bits(), 3.0f32.to_bits()]);
}

#[test]
fn inspect_entity_not_found() {
    let world = World::new();
    let fake_id = EntityId::new();
    assert!(WorldInspector::inspect_entity(&world, fake_id).is_none());
}

#[test]
fn list_entities() {
    let mut world = World::new();
    let id1 = world.spawn(Transform::default());
    let id2 = world.spawn(Transform::default());

    let ids = WorldInspector::list_entities(&world);
    assert_eq!(ids.len(), 2);
    assert!(ids.contains(&id1));
    assert!(ids.contains(&id2));
}

#[test]
fn summary_display() {
    let world = World::new();
    let summary = WorldInspector::summary(&world);
    let s = summary.to_string();
    assert!(s.contains("tick=0"));
}

#[test]
fn summary_text_is_exact() {
    let summary = WorldSummary { tick: 12, seed: u64::MAX, entity_count: 3, pending_events: 0 };
    assert_eq!(
        summary.to_string(),
        "World: tick=12 seed=18446744073709551615 entities=3 pending_events=0"
    );
    let mut world = World::with_seed(5);
    world.spawn_with_id(EntityId(1), Transform::default());
    assert_eq!(
        WorldInspector::summary(&world).to_string(),
        "World: tick=0 seed=5 entities=1 pending_events=1"
    );
}

#[test]
fn inspection_shows_every_component_and_lists_in_order() {
    let mut world = World::new();
    world.spawn_with_id(EntityId(30), Transform::default());
    world.spawn_with_id(EntityId(10), Transform::default());
    world.spawn_with_id(EntityId(20), Transform::default());
    assert_eq!(
        WorldInspector::list_entities(&world),
        vec![EntityId(10), EntityId(20), EntityId(30)]
    );
    let info = WorldInspector::inspect_entity(&world, EntityId(20)).unwrap();
    let (zero, one) = (0.0f32.to_bits(), 1.0f32.to_bits());
    assert_eq!(info.id, EntityId(20));
    assert_eq!(info.position, [zero, zero, zero]);
    assert_eq!(info.rotation, [zero, zero, zero, one]);
    assert_eq!(info.scale, [one, one, one]);
}
