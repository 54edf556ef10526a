use worldspace::common::{EntityId, Transform, Vec3};
use worldspace::input::Action;
use worldspace::kernel::world::World;
use worldspace::render::{DebugTextRenderer, RenderView};

fn v(x: f32, y: f32, z: f32) -> Vec3 {
    Vec3::new(x.to_bits(), y.to_bits(), z.to_bits())
}

#[test]
fn action_move_is_constructible() {
    let a = Action::Move(v(1.0, 0.0, 0.0));
    assert!(matches!(a, Action::Move(_)));
}

#[test]
fn action_spawn_entity() {
    let a = Action::SpawnEntity(v(0.0, 5.0, 0.0));
    assert!(matches!(a, Action::SpawnEntity(_)));
}

#[test]
fn action_select_deselect() {
    let id = EntityId::new();
    let a = Action::Select(id);
    assert!(matches!(a, Action::Select(_)));
    let b = Action::Deselect;
    assert!(matches!(b, Action::Deselect));
}

#[test]
fn action_undo_redo() {
    assert!(matches!(Action::Undo, Action::Undo));
    assert!(matches!(Action::Redo, Action::Redo));
}

#[test]
fn debug_renderer_empty_world() {
    let world = World::new();
    let renderer = DebugTextRenderer::new();
    let output = renderer.header(&world);

    assert!(output.contains("tick=0"));
    assert!(output.contains("Entities: 0"));
}

#[test]
fn render_view_default() {
    let view = RenderView::default();
    assert_eq!(view.fov_degrees, 60.0f32.to_bits());
    assert_eq!(view.target, Vec3::zero());
    assert_eq!(view.eye, v(0.0, 10.0, 10.0));
}

#[test]
fn debug_frame_header() {
    let renderer = DebugTextRenderer::new();
    assert_eq!(
        renderer.header(&World::new()),
        "=== World State (tick=0, seed=0) ===\nEntities: 0\n"
    );
    let mut world = World::with_seed(42);
    world.spawn(Transform::default());
    world.spawn(Transform::default());
    world.set_tick(7);
    let header = DebugTextRenderer::default().header(&world);
    assert_eq!(header, "=== World State (tick=7, seed=42) ===\nEntities: 2\n");
    assert!(header.contains("Entities: 2"));
}
