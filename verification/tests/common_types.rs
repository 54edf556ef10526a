use worldspace::common::{EntityId, Quat, Transform, Vec3};

#[test]
fn entity_id_uniqueness() {
    let a = EntityId::new();
    let b = EntityId::new();
    assert_ne!(a, b);
}

#[test]
fn transform_default_is_identity() {
    let t = Transform::default();
    assert_eq!(t.position, Vec3::zero());
    assert_eq!(t.rotation, Quat::identity());
    assert_eq!(t.scale, Vec3::one());
}

#[test]
fn identity_components_are_float_bit_patterns() {
    let t = Transform::default();
    assert_eq!(t.position, Vec3::new(0.0f32.to_bits(), 0.0f32.to_bits(), 0.0f32.to_bits()));
    assert_eq!(
        t.rotation,
        Quat::new(0.0f32.to_bits(), 0.0f32.to_bits(), 0.0f32.to_bits(), 1.0f32.to_bits())
    );
    assert_eq!(t.scale, Vec3::new(1.0f32.to_bits(), 1.0f32.to_bits(), 1.0f32.to_bits()));
}

#[test]
fn fresh_ids_are_random_uuids() {
    for _ in 0..32 {
        let id = EntityId::new();
        // Version nibble 4, variant bits 10.
        assert_eq!((id.0 >> 76) & 0xf, 4);
        assert_eq!((id.0 >> 62) & 0x3, 2);
    }
    let id = EntityId::default();
    assert_eq!((id.0 >> 76) & 0xf, 4);
}

#[test]
fn entity_ids_order_by_value() {
    let mut ids = vec![EntityId(3), EntityId(1), EntityId(u128::MAX), EntityId(2)];
    ids.sort();
    assert_eq!(ids, vec![EntityId(1), EntityId(2), EntityId(3), EntityId(u128::MAX)]);
}
