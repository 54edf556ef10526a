//! Minimal deterministic component model.
//!
//! Every component type has its own ordered store keyed by entity identifier,
//! and every mutation of a store is logged as an event.

use vstd::prelude::*;
use std::collections::BTreeMap;
use crate::common::{EntityId, Vec3};

verus! {

/// A handle referencing a mesh asset.
#[derive(Clone, Copy, Debug, PartialEq, Eq, Hash, Structural)]
pub struct MeshHandle(pub u64);

/// A handle referencing a material asset.
#[derive(Clone, Copy, Debug, PartialEq, Eq, Hash, Structural)]
pub struct MaterialHandle(pub u64);

/// Human-readable name component.
#[derive(Clone, Debug)]
pub struct Name(pub String);

/// Renderable component: references mesh and material assets.
#[derive(Clone, Copy, Debug, PartialEq, Eq, Structural)]
pub struct Renderable {
    pub mesh: MeshHandle,
    pub material: MaterialHandle,
}

/// Rigid body stub. The mass is a binary32 value held as its bit pattern.
#[derive(Clone, Copy, Debug, PartialEq, Eq, Structural)]
pub struct RigidBody {
    pub mass: u32,
    pub is_kinematic: bool,
}

impl Default for RigidBody {
    fn default() -> (body: RigidBody)
        ensures
            body == (RigidBody { mass: crate::common::F32_ONE_BITS, is_kinematic: false }),
    {
        RigidBody { mass: crate::common::F32_ONE_BITS, is_kinematic: false }
    }
}

/// Bit pattern of the binary32 value `0.5`.
pub const F32_HALF_BITS: u32 = 0x3f00_0000;

/// Collider stub. Lengths are binary32 values held as their bit patterns.
#[derive(Clone, Copy, Debug, PartialEq, Eq, Structural)]
pub enum Collider {
    Box { half_extents: Vec3 },
    Sphere { radius: u32 },
}

impl Default for Collider {
    fn default() -> (collider: Collider)
        ensures
            collider == (Collider::Box {
                half_extents: Vec3 { x: F32_HALF_BITS, y: F32_HALF_BITS, z: F32_HALF_BITS },
            }),
    {
        Collider::Box {
            half_extents: Vec3 { x: F32_HALF_BITS, y: F32_HALF_BITS, z: F32_HALF_BITS },
        }
    }
}

/// Events produced by component mutations.
#[derive(Clone, Debug)]
pub enum ComponentEvent {
    NameAdded { entity: EntityId, name: String },
    NameRemoved { entity: EntityId, name: String },
    NameUpdated { entity: EntityId, old: String, new: String },
    RenderableAdded { entity: EntityId, renderable: Renderable },
    RenderableRemoved { entity: EntityId, renderable: Renderable },
    RenderableUpdated { entity: EntityId, old: Renderable, new: Renderable },
    RigidBodyAdded { entity: EntityId, body: RigidBody },
    RigidBodyRemoved { entity: EntityId, body: RigidBody },
    ColliderAdded { entity: EntityId, collider: Collider },
    ColliderRemoved { entity: EntityId, collider: Collider },
}

/// The components of every entity, without the event log.
pub struct Components {
    pub names: Map<u128, Seq<char>>,
    pub renderables: Map<u128, Renderable>,
    pub rigid_bodies: Map<u128, RigidBody>,
    pub colliders: Map<u128, Collider>,
}

impl Components {
    /// No entity has any component.
    pub open spec fn empty() -> Components {
        Components {
            names: Map::empty(),
            renderables: Map::empty(),
            rigid_bodies: Map::empty(),
            colliders: Map::empty(),
        }
    }

    /// The components after the mutation that `event` records.
    pub open spec fn apply(self, event: ComponentEvent) -> Components {
        match event {
            ComponentEvent::NameAdded { entity, name } => Components {
                names: self.names.insert(entity.0, name@),
                ..self
            },
            ComponentEvent::NameRemoved { entity, name } => Components {
                names: self.names.remove(entity.0),
                ..self
            },
            ComponentEvent::NameUpdated { entity, old, new } => Components {
                names: self.names.insert(entity.0, new@),
                ..self
            },
            ComponentEvent::RenderableAdded { entity, renderable } => Components {
                renderables: self.renderables.insert(entity.0, renderable),
                ..self
            },
            ComponentEvent::RenderableRemoved { entity, renderable } => Components {
                renderables: self.renderables.remove(entity.0),
                ..self
            },
            ComponentEvent::RenderableUpdated { entity, old, new } => Components {
                renderables: self.renderables.insert(entity.0, new),
                ..self
            },
            ComponentEvent::RigidBodyAdded { entity, body } => Components {
                rigid_bodies: self.rigid_bodies.insert(entity.0, body),
                ..self
            },
            ComponentEvent::RigidBodyRemoved { entity, body } => Components {
                rigid_bodies: self.rigid_bodies.remove(entity.0),
                ..self
            },
            ComponentEvent::ColliderAdded { entity, collider } => Components {
                colliders: self.colliders.insert(entity.0, collider),
                ..self
            },
            ComponentEvent::ColliderRemoved { entity, collider } => Components {
                colliders: self.colliders.remove(entity.0),
                ..self
            },
        }
    }
}

/// A component store as contracts see it: the components and the events
/// logged since the log was last drained.
pub struct StoreView {
    pub components: Components,
    pub events: Seq<ComponentEvent>,
}

impl StoreView {
    /// The store after a mutation that logs `event`.
    pub open spec fn log(self, event: ComponentEvent) -> StoreView {
        StoreView { components: self.components.apply(event), events: self.events.push(event) }
    }

    /// The event that giving `entity` the name `name` logs: an update if the
    /// entity has a name, an addition otherwise.
    pub open spec fn naming(self, entity: EntityId, event: ComponentEvent, name: Seq<char>) -> bool {
        if self.components.names.contains_key(entity.0) {
            event matches ComponentEvent::NameUpdated { entity: e, old, new } && e == entity
                && old@ == self.components.names[entity.0] && new@ == name
        } else {
            event matches ComponentEvent::NameAdded { entity: e, name: n } && e == entity && n@
                == name
        }
    }

    /// The store after giving `entity` a renderable.
    pub open spec fn set_renderable(self, entity: EntityId, renderable: Renderable) -> StoreView {
        if self.components.renderables.contains_key(entity.0) {
            self.log(
                ComponentEvent::RenderableUpdated {
                    entity,
                    old: self.components.renderables[entity.0],
                    new: renderable,
                },
            )
        } else {
            self.log(ComponentEvent::RenderableAdded { entity, renderable })
        }
    }

    /// The store after taking the renderable of `entity` away, if it has one.
    pub open spec fn remove_renderable(self, entity: EntityId) -> StoreView {
        if self.components.renderables.contains_key(entity.0) {
            self.log(
                ComponentEvent::RenderableRemoved {
                    entity,
                    renderable: self.components.renderables[entity.0],
                },
            )
        } else {
            self
        }
    }

    /// The store after giving `entity` a rigid body.
    pub open spec fn set_rigid_body(self, entity: EntityId, body: RigidBody) -> StoreView {
        self.log(ComponentEvent::RigidBodyAdded { entity, body })
    }

    /// The store after taking the rigid body of `entity` away, if it has one.
    pub open spec fn remove_rigid_body(self, entity: EntityId) -> StoreView {
        if self.components.rigid_bodies.contains_key(entity.0) {
            self.log(
                ComponentEvent::RigidBodyRemoved {
                    entity,
                    body: self.components.rigid_bodies[entity.0],
                },
            )
        } else {
            self
        }
    }

    /// The store after giving `entity` a collider.
    pub open spec fn set_collider(self, entity: EntityId, collider: Collider) -> StoreView {
        self.log(ComponentEvent::ColliderAdded { entity, collider })
    }

    /// The store after taking the collider of `entity` away, if it has one.
    pub open spec fn remove_collider(self, entity: EntityId) -> StoreView {
        if self.components.colliders.contains_key(entity.0) {
            self.log(
                ComponentEvent::ColliderRemoved {
                    entity,
                    collider: self.components.colliders[entity.0],
                },
            )
        } else {
            self
        }
    }
}

/// Deterministic component storage for all component types.
#[derive(Debug)]
pub struct ComponentStore {
    names: BTreeMap<u128, Name>,
    renderables: BTreeMap<u128, Renderable>,
    rigid_bodies: BTreeMap<u128, RigidBody>,
    colliders: BTreeMap<u128, Collider>,
    events: Vec<ComponentEvent>,
}

impl View for ComponentStore {
    type V = StoreView;

    closed spec fn view(&self) -> StoreView {
        StoreView {
            components: Components {
                names: self.names@.map_values(|n: Name| n.0@),
                renderables: self.renderables@,
                rigid_bodies: self.rigid_bodies@,
                colliders: self.colliders@,
            },
            events: self.events@,
        }
    }
}

impl ComponentStore {
    /// The stored name components by entity.
    pub closed spec fn name_map(&self) -> Map<u128, Name> {
        self.names@
    }

    pub fn new() -> (store: ComponentStore)
        ensures
            store@ == (StoreView { components: Components::empty(), events: Seq::empty() }),
    {
        let store = ComponentStore {
            names: BTreeMap::new(),
            renderables: BTreeMap::new(),
            rigid_bodies: BTreeMap::new(),
            colliders: BTreeMap::new(),
            events: Vec::new(),
        };
        assert(store@.components.names =~= Map::<u128, Seq<char>>::empty());
        store
    }

    /// Drain and return all pending component events.
    pub fn drain_events(&mut self) -> (events: Vec<ComponentEvent>)
        ensures
            events@ == old(self)@.events,
            final(self)@.events == Seq::<ComponentEvent>::empty(),
            final(self)@.components == old(self)@.components,
    {
        let mut events: Vec<ComponentEvent> = Vec::new();
        std::mem::swap(&mut events, &mut self.events);
        events
    }

    /// Read-only access to pending events.
    pub fn events(&self) -> (events: &[ComponentEvent])
        ensures
            events@ == self@.events,
    {
        self.events.as_slice()
    }

    /// Gives `entity` the name `name`, logging an addition or an update.
    pub fn set_name(&mut self, entity: EntityId, name: String)
        ensures
            final(self)@.events.len() == old(self)@.events.len() + 1,
            old(self)@.naming(entity, final(self)@.events.last(), name@),
            final(self)@ == old(self)@.log(final(self)@.events.last()),
    {
        let event = match self.names.get(&entity.0) {
            Some(old) => ComponentEvent::NameUpdated {
                entity,
                old: old.0.clone(),
                new: name.clone(),
            },
            None => ComponentEvent::NameAdded { entity, name: name.clone() },
        };
        self.events.push(event);
        self.names.insert(entity.0, Name(name));
        proof {
            assert(self@.components.names =~= old(self)@.components.names.insert(entity.0, name@));
            assert(self@.events.drop_last() =~= old(self)@.events);
        }
    }

    /// Takes the name of `entity` away and returns it, if it has one.
    pub fn remove_name(&mut self, entity: EntityId) -> (removed: Option<Name>)
        ensures
            match removed {
                Some(name) => {
                    &&& old(self)@.components.names.contains_key(entity.0)
                    &&& name.0@ == old(self)@.components.names[entity.0]
                    &&& final(self)@.events.len() == old(self)@.events.len() + 1
                    &&& final(self)@.events.last() matches ComponentEvent::NameRemoved {
                        entity: e,
                        name: n,
                    } && e == entity && n@ == name.0@
                    &&& final(self)@ == old(self)@.log(final(self)@.events.last())
                },
                None => !old(self)@.components.names.contains_key(entity.0) && final(self)@ == old(
                    self,
                )@,
            },
    {
        let removed = self.names.remove(&entity.0);
        match &removed {
            Some(n) => {
                self.events.push(ComponentEvent::NameRemoved { entity, name: n.0.clone() });
                proof {
                    assert(self@.components.names =~= old(self)@.components.names.remove(
                        entity.0,
                    ));
                    assert(self@.events.drop_last() =~= old(self)@.events);
                }
            },
            None => {
                proof {
                    assert(self.names@ =~= old(self).names@);
                }
            },
        }
        removed
    }

    /// The name of `entity`, if it has one.
    pub fn get_name(&self, entity: EntityId) -> (name: Option<&Name>)
        ensures
            match name {
                Some(n) => self@.components.names.contains_key(entity.0) && n.0@
                    == self@.components.names[entity.0],
                None => !self@.components.names.contains_key(entity.0),
            },
    {
        self.names.get(&entity.0)
    }

    /// Read-only access to all names, keyed by identifier value.
    pub fn names(&self) -> (names: &BTreeMap<u128, Name>)
        ensures
            names@ == self.name_map(),
            names@.map_values(|n: Name| n.0@) == self@.components.names,
    {
        &self.names
    }

    /// Gives `entity` a renderable, logging an addition or an update.
    pub fn set_renderable(&mut self, entity: EntityId, renderable: Renderable)
        ensures
            final(self)@ == old(self)@.set_renderable(entity, renderable),
    {
        match self.renderables.get(&entity.0) {
            Some(old) => {
                self.events.push(
                    ComponentEvent::RenderableUpdated { entity, old: *old, new: renderable },
                );
            },
            None => {
                self.events.push(ComponentEvent::RenderableAdded { entity, renderable });
            },
        }
        self.renderables.insert(entity.0, renderable);
    }

    /// Takes the renderable of `entity` away and returns it, if it has one.
    pub fn remove_renderable(&mut self, entity: EntityId) -> (removed: Option<Renderable>)
        ensures
            removed == (if old(self)@.components.renderables.contains_key(entity.0) {
                Some(old(self)@.components.renderables[entity.0])
            } else {
                None
            }),
            final(self)@ == old(self)@.remove_renderable(entity),
    {
        let removed = self.renderables.remove(&entity.0);
        match removed {
            Some(r) => {
                self.events.push(ComponentEvent::RenderableRemoved { entity, renderable: r });
            },
            None => {
                proof {
                    assert(self.renderables@ =~= old(self).renderables@);
                }
            },
        }
        removed
    }

    /// The renderable of `entity`, if it has one.
    pub fn get_renderable(&self, entity: EntityId) -> (renderable: Option<&Renderable>)
        ensures
            match renderable {
                Some(r) => self@.components.renderables.contains_key(entity.0) && *r
                    == self@.components.renderables[entity.0],
                None => !self@.components.renderables.contains_key(entity.0),
            },
    {
        self.renderables.get(&entity.0)
    }

    /// Read-only access to all renderables, keyed by identifier value.
    pub fn renderables(&self) -> (renderables: &BTreeMap<u128, Renderable>)
        ensures
            renderables@ == self@.components.renderables,
    {
        &self.renderables
    }

    /// Gives `entity` a rigid body.
    pub fn set_rigid_body(&mut self, entity: EntityId, body: RigidBody)
        ensures
            final(self)@ == old(self)@.set_rigid_body(entity, body),
    {
        self.events.push(ComponentEvent::RigidBodyAdded { entity, body });
        self.rigid_bodies.insert(entity.0, body);
    }

    /// Takes the rigid body of `entity` away and returns it, if it has one.
    pub fn remove_rigid_body(&mut self, entity: EntityId) -> (removed: Option<RigidBody>)
        ensures
            removed == (if old(self)@.components.rigid_bodies.contains_key(entity.0) {
                Some(old(self)@.components.rigid_bodies[entity.0])
            } else {
                None
            }),
            final(self)@ == old(self)@.remove_rigid_body(entity),
    {
        let removed = self.rigid_bodies.remove(&entity.0);
        match removed {
            Some(body) => {
                self.events.push(ComponentEvent::RigidBodyRemoved { entity, body });
            },
            None => {
                proof {
                    assert(self.rigid_bodies@ =~= old(self).rigid_bodies@);
                }
            },
        }
        removed
    }

    /// The rigid body of `entity`, if it has one.
    pub fn get_rigid_body(&self, entity: EntityId) -> (body: Option<&RigidBody>)
        ensures
            match body {
                Some(b) => self@.components.rigid_bodies.contains_key(entity.0) && *b
                    == self@.components.rigid_bodies[entity.0],
                None => !self@.components.rigid_bodies.contains_key(entity.0),
            },
    {
        self.rigid_bodies.get(&entity.0)
    }

    /// Gives `entity` a collider.
    pub fn set_collider(&mut self, entity: EntityId, collider: Collider)
        ensures
            final(self)@ == old(self)@.set_collider(entity, collider),
    {
        self.events.push(ComponentEvent::ColliderAdded { entity, collider });
        self.colliders.insert(entity.0, collider);
    }

    /// Takes the collider of `entity` away and returns it, if it has one.
    pub fn remove_collider(&mut self, entity: EntityId) -> (removed: Option<Collider>)
        ensures
            removed == (if old(self)@.components.colliders.contains_key(entity.0) {
                Some(old(self)@.components.colliders[entity.0])
            } else {
                None
            }),
            final(self)@ == old(self)@.remove_collider(entity),
    {
        let removed = self.colliders.remove(&entity.0);
        match removed {
            Some(collider) => {
                self.events.push(ComponentEvent::ColliderRemoved { entity, collider });
            },
            None => {
                proof {
                    assert(self.colliders@ =~= old(self).colliders@);
                }
            },
        }
        removed
    }

    /// The collider of `entity`, if it has one.
    pub fn get_collider(&self, entity: EntityId) -> (collider: Option<&Collider>)
        ensures
            match collider {
                Some(c) => self@.components.colliders.contains_key(entity.0) && *c
                    == self@.components.colliders[entity.0],
                None => !self@.components.colliders.contains_key(entity.0),
            },
    {
        self.colliders.get(&entity.0)
    }

    /// Remove all components for an entity, logging one removal for each
    /// component that the entity had: name, renderable, rigid body, collider,
    /// in this order.
    pub fn remove_entity(&mut self, entity: EntityId)
        ensures
            final(self)@.components == (Components {
                names: old(self)@.components.names.remove(entity.0),
                renderables: old(self)@.components.renderables.remove(entity.0),
                rigid_bodies: old(self)@.components.rigid_bodies.remove(entity.0),
                colliders: old(self)@.components.colliders.remove(entity.0),
            }),
            final(self)@.components == old(self)@.components.apply_all(
                final(self)@.events.skip(old(self)@.events.len() as int),
            ),
            final(self)@.events.take(old(self)@.events.len() as int) == old(self)@.events,
            final(self)@.events.len() == old(self)@.events.len() + old(
                self,
            )@.components.count_for(entity),
    {
        let ghost e0 = self@.events;
        let ghost c0 = self@.components;
        self.remove_name(entity);
        let ghost e1 = self@.events;
        let ghost c1 = self@.components;
        self.remove_renderable(entity);
        let ghost e2 = self@.events;
        let ghost c2 = self@.components;
        self.remove_rigid_body(entity);
        let ghost e3 = self@.events;
        let ghost c3 = self@.components;
        self.remove_collider(entity);
        let ghost e4 = self@.events;
        proof {
            assert(c1.names =~= c0.names.remove(entity.0));
            assert(c2.renderables =~= c1.renderables.remove(entity.0));
            assert(c3.rigid_bodies =~= c2.rigid_bodies.remove(entity.0));
            assert(self@.components.colliders =~= c3.colliders.remove(entity.0));
            let n0 = e0.len() as int;
            assert(e0.skip(n0) =~= Seq::<ComponentEvent>::empty());
            lemma_apply_all_step(c0, n0, e0, c0, e1, c1);
            lemma_apply_all_step(c0, n0, e1, c1, e2, c2);
            lemma_apply_all_step(c0, n0, e2, c2, e3, c3);
            lemma_apply_all_step(c0, n0, e3, c3, e4, self@.components);
            assert(e4.take(n0) =~= e0);
        }
    }

    /// Replay a component event: changes the components as the mutation that
    /// logged the event did, and logs nothing.
    pub fn apply_event(&mut self, event: &ComponentEvent)
        ensures
            final(self)@.components == old(self)@.components.apply(*event),
            final(self)@.events == old(self)@.events,
    {
        match event {
            ComponentEvent::NameAdded { entity, name } => {
                self.names.insert(entity.0, Name(name.clone()));
                assert(self@.components.names =~= old(self)@.components.names.insert(
                    entity.0,
                    name@,
                ));
            },
            ComponentEvent::NameRemoved { entity, .. } => {
                self.names.remove(&entity.0);
                assert(self@.components.names =~= old(self)@.components.names.remove(entity.0));
            },
            ComponentEvent::NameUpdated { entity, new, .. } => {
                self.names.insert(entity.0, Name(new.clone()));
                assert(self@.components.names =~= old(self)@.components.names.insert(
                    entity.0,
                    new@,
                ));
            },
            ComponentEvent::RenderableAdded { entity, renderable } => {
                self.renderables.insert(entity.0, *renderable);
            },
            ComponentEvent::RenderableRemoved { entity, .. } => {
                self.renderables.remove(&entity.0);
            },
            ComponentEvent::RenderableUpdated { entity, new, .. } => {
                self.renderables.insert(entity.0, *new);
            },
            ComponentEvent::RigidBodyAdded { entity, body } => {
                self.rigid_bodies.insert(entity.0, *body);
            },
            ComponentEvent::RigidBodyRemoved { entity, .. } => {
                self.rigid_bodies.remove(&entity.0);
            },
            ComponentEvent::ColliderAdded { entity, collider } => {
                self.colliders.insert(entity.0, *collider);
            },
            ComponentEvent::ColliderRemoved { entity, .. } => {
                self.colliders.remove(&entity.0);
            },
        }
    }
}

impl Components {
    /// The number of components that `entity` has.
    pub open spec fn count_for(self, entity: EntityId) -> nat {
        (if self.names.contains_key(entity.0) {
            1nat
        } else {
            0nat
        }) + (if self.renderables.contains_key(entity.0) {
            1nat
        } else {
            0nat
        }) + (if self.rigid_bodies.contains_key(entity.0) {
            1nat
        } else {
            0nat
        }) + (if self.colliders.contains_key(entity.0) {
            1nat
        } else {
            0nat
        })
    }

    /// The components after applying `events` in order.
    pub open spec fn apply_all(self, events: Seq<ComponentEvent>) -> Components
        decreases events.len(),
    {
        if events.len() == 0 {
            self
        } else {
            self.apply_all(events.drop_last()).apply(events.last())
        }
    }
}

/// One more mutation, logged or not, keeps the components equal to what the
/// events logged since position `n` produce.
proof fn lemma_apply_all_step(
    start: Components,
    n: int,
    before: Seq<ComponentEvent>,
    held: Components,
    after: Seq<ComponentEvent>,
    reached: Components,
)
    requires
        0 <= n <= before.len(),
        held == start.apply_all(before.skip(n)),
        (after == before && reached == held) || (after == before.push(after.last()) && reached
            == held.apply(after.last())),
    ensures
        reached == start.apply_all(after.skip(n)),
{
    if !(after == before && reached == held) {
        assert(after.skip(n).drop_last() =~= before.skip(n));
        assert(after.skip(n).last() == after.last());
    }
}

impl Default for ComponentStore {
    fn default() -> (store: ComponentStore)
        ensures
            store@ == (StoreView { components: Components::empty(), events: Seq::empty() }),
    {
        ComponentStore::new()
    }
}

/// The name and version of the component model.
pub fn crate_info() -> (info: &'static str)
    ensures
        info@ == "worldspace-ecs v0.1.0"@,
{
    "worldspace-ecs v0.1.0"
}

} // verus!
