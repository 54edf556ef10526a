use worldspace::common::{EntityId, Vec3};
use worldspace::ecs::{
    Collider, ComponentEvent, ComponentStore, MaterialHandle, MeshHandle, Renderable, RigidBody,
};

#[test]
fn name_add_remove() {
    let mut store = ComponentStore::new();
    let id = EntityId::new();
    store.set_name(id, "Test".into());
    assert_eq!(store.get_name(id).unwrap().0, "Test");

    store.remove_name(id);
    assert!(store.get_name(id).is_none());
    assert_eq!(store.events().len(), 2);
}

#[test]
fn name_update_produces_event() {
    let mut store = ComponentStore::new();
    let id = EntityId::new();
    store.set_name(id, "First".into());
    store.set_name(id, "Second".into());
    assert_eq!(store.get_name(id).unwrap().0, "Second");
    // Add + Update
    assert_eq!(store.events().len(), 2);
}

#[test]
fn renderable_add_remove() {
    let mut store = ComponentStore::new();
    let id = EntityId::new();
    let r = Renderable { mesh: MeshHandle(1), material: MaterialHandle(2) };
    store.set_renderable(id, r);
    assert_eq!(store.get_renderable(id), Some(&r));

    store.remove_renderable(id);
    assert!(store.get_renderable(id).is_none());
}

#[test]
fn remove_entity_clears_all() {
    let mut store = ComponentStore::new();
    let id = EntityId::new();
    store.set_name(id, "Test".into());
    store.set_renderable(id, Renderable { mesh: MeshHandle(0), material: MaterialHandle(0) });
    store.set_rigid_body(id, RigidBody::default());
    store.set_collider(id, Collider::default());

    store.remove_entity(id);
    assert!(store.get_name(id).is_none());
    assert!(store.get_renderable(id).is_none());
    assert!(store.get_rigid_body(id).is_none());
    assert!(store.get_collider(id).is_none());
}

#[test]
fn deterministic_iteration_order() {
    let mut store = ComponentStore::new();
    let mut ids: Vec<EntityId> = (0..50).map(|_| EntityId::new()).collect();
    for id in &ids {
        store.set_name(*id, format!("entity_{}", id.0));
    }
    ids.sort();
    let stored_keys: Vec<EntityId> = store.names().keys().map(|k| EntityId(*k)).collect();
    assert_eq!(stored_keys, ids);
}

#[test]
fn apply_event_replay() {
    let mut store = ComponentStore::new();
    let id = EntityId::new();
    let event = ComponentEvent::NameAdded { entity: id, name: "Replayed".into() };
    store.apply_event(&event);
    assert_eq!(store.get_name(id).unwrap().0, "Replayed");
}

#[test]
fn drain_events() {
    let mut store = ComponentStore::new();
    let id = EntityId::new();
    store.set_name(id, "Test".into());
    let events = store.drain_events();
    assert_eq!(events.len(), 1);
    assert!(store.events().is_empty());
}

#[test]
fn component_events_carry_old_and_new_values() {
    let mut store = ComponentStore::new();
    let id = EntityId(1);
    store.set_name(id, "First".into());
    store.set_name(id, "Second".into());
    store.remove_name(id);
    assert!(store.remove_name(id).is_none());
    let events = store.drain_events();
    assert_eq!(events.len(), 3);
    match &events[0] {
        ComponentEvent::NameAdded { entity, name } => {
            assert_eq!(*entity, id);
            assert_eq!(name, "First");
        }
        other => panic!("expected NameAdded, got {other:?}"),
    }
    match &events[1] {
        ComponentEvent::NameUpdated { entity, old, new } => {
            assert_eq!(*entity, id);
            assert_eq!(old, "First");
            assert_eq!(new, "Second");
        }
        other => panic!("expected NameUpdated, got {other:?}"),
    }
    match &events[2] {
        ComponentEvent::NameRemoved { entity, name } => {
            assert_eq!(*entity, id);
            assert_eq!(name, "Second");
        }
        other => panic!("expected NameRemoved, got {other:?}"),
    }

    let first = Renderable { mesh: MeshHandle(1), material: MaterialHandle(2) };
    let second = Renderable { mesh: MeshHandle(3), material: MaterialHandle(4) };
    store.set_renderable(id, first);
    store.set_renderable(id, second);
    assert_eq!(store.remove_renderable(id), Some(second));
    assert_eq!(store.remove_renderable(id), None);
    let events = store.drain_events();
    assert_eq!(events.len(), 3);
    match &events[1] {
        ComponentEvent::RenderableUpdated { old, new, .. } => {
            assert_eq!(*old, first);
            assert_eq!(*new, second);
        }
        other => panic!("expected RenderableUpdated, got {other:?}"),
    }
}

#[test]
fn rigid_body_and_collider_log_additions_and_removals() {
    let mut store = ComponentStore::new();
    let id = EntityId(2);
    let body = RigidBody { mass: 2.5f32.to_bits(), is_kinematic: true };
    store.set_rigid_body(id, RigidBody::default());
    store.set_rigid_body(id, body);
    assert_eq!(store.get_rigid_body(id), Some(&body));
    assert_eq!(store.remove_rigid_body(id), Some(body));
    assert_eq!(store.remove_rigid_body(id), None);
    let sphere = Collider::Sphere { radius: 3.0f32.to_bits() };
    store.set_collider(id, sphere);
    assert_eq!(store.get_collider(id), Some(&sphere));
    assert_eq!(store.remove_collider(id), Some(sphere));
    assert_eq!(store.remove_collider(id), None);
    // Every set logs an addition; only removals that took something log.
    assert_eq!(store.events().len(), 5);
}

#[test]
fn remove_entity_logs_one_removal_per_component() {
    let mut store = ComponentStore::new();
    let id = EntityId(3);
    store.set_name(id, "n".into());
    store.set_collider(id, Collider::default());
    store.set_name(EntityId(4), "other".into());
    store.drain_events();
    store.remove_entity(id);
    let events = store.drain_events();
    assert_eq!(events.len(), 2);
    assert!(matches!(events[0], ComponentEvent::NameRemoved { .. }));
    assert!(matches!(events[1], ComponentEvent::ColliderRemoved { .. }));
    assert!(store.get_name(EntityId(4)).is_some());
    store.remove_entity(id);
    assert!(store.events().is_empty());
}

#[test]
fn component_defaults() {
    assert_eq!(RigidBody::default(), RigidBody { mass: 1.0f32.to_bits(), is_kinematic: false });
    let half = 0.5f32.to_bits();
    assert_eq!(Collider::default(), Collider::Box { half_extents: Vec3::new(half, half, half) });
}

#[test]
fn replaying_the_events_rebuilds_the_components() {
    let mut store = ComponentStore::new();
    let a = EntityId(1);
    let b = EntityId(2);
    store.set_name(a, "a".into());
    store.set_name(b, "b".into());
    store.set_name(a, "a2".into());
    store.set_renderable(a, Renderable { mesh: MeshHandle(1), material: MaterialHandle(1) });
    store.set_rigid_body(b, RigidBody::default());
    store.set_collider(b, Collider::default());
    store.remove_entity(b);

    let mut replayed = ComponentStore::new();
    for event in store.events() {
        replayed.apply_event(event);
    }
    assert!(replayed.events().is_empty());
    assert_eq!(replayed.get_name(a).unwrap().0, "a2");
    assert!(replayed.get_name(b).is_none());
    assert_eq!(replayed.get_renderable(a), store.get_renderable(a));
    assert!(replayed.get_rigid_body(b).is_none());
    assert!(replayed.get_collider(b).is_none());
    assert_eq!(replayed.renderables().len(), 1);
}
