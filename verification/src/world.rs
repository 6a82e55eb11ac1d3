//! The registry of entities: one record of optional components per handle.

use crate::components::{
    Accel, CharacterCollisionBundle, CharacterController, CharacterMovementBundle, CollisionHits,
    DeaccelDampingFactor, DynamicCollisionType, Entity, Gravity, Grounded, JumpImpulse,
    MovementAction, StaticCollisionType, Transform, TriggerCollisionType, Velocity,
};
use crate::direction::CollisionDirection;
use crate::shape::{CollisionShape, PreppedCollisionShape};
use vstd::prelude::*;

verus! {

/// Everything one entity carries. An absent component is `None`.
#[derive(Debug)]
pub struct Components {
    pub transform: Option<Transform>,
    pub velocity: Option<Velocity>,
    pub accel: Option<Accel>,
    pub deaccel: Option<DeaccelDampingFactor>,
    pub jump: Option<JumpImpulse>,
    pub gravity: Option<Gravity>,
    pub grounded: Option<Grounded>,
    pub controller: Option<CharacterController>,
    pub hits: Option<CollisionHits>,
    pub shape: Option<CollisionShape>,
    pub prepped: Option<PreppedCollisionShape>,
    pub static_type: Option<StaticCollisionType>,
    pub dynamic_type: Option<DynamicCollisionType>,
    pub trigger_type: Option<TriggerCollisionType>,
}

/// The mathematical content of one entity's record.
pub struct ComponentsView {
    pub transform: Option<Transform>,
    pub velocity: Option<Velocity>,
    pub accel: Option<Accel>,
    pub deaccel: Option<DeaccelDampingFactor>,
    pub jump: Option<JumpImpulse>,
    pub gravity: Option<Gravity>,
    pub grounded: Option<Grounded>,
    pub controller: Option<Seq<MovementAction>>,
    pub hits: Option<Seq<(Entity, CollisionDirection)>>,
    pub shape: Option<CollisionShape>,
    pub prepped: Option<PreppedCollisionShape>,
    pub static_type: Option<StaticCollisionType>,
    pub dynamic_type: Option<DynamicCollisionType>,
    pub trigger_type: Option<TriggerCollisionType>,
}

impl View for Components {
    type V = ComponentsView;

    open spec fn view(&self) -> ComponentsView {
        ComponentsView {
            transform: self.transform,
            velocity: self.velocity,
            accel: self.accel,
            deaccel: self.deaccel,
            jump: self.jump,
            gravity: self.gravity,
            grounded: self.grounded,
            controller: match self.controller {
                Some(c) => Some(c@),
                None => None,
            },
            hits: match self.hits {
                Some(h) => Some(h@),
                None => None,
            },
            shape: self.shape,
            prepped: self.prepped,
            static_type: self.static_type,
            dynamic_type: self.dynamic_type,
            trigger_type: self.trigger_type,
        }
    }
}

/// All entities, addressed by their handles.
#[derive(Debug)]
pub struct World {
    pub entities: Vec<Components>,
}

impl View for World {
    type V = Seq<ComponentsView>;

    open spec fn view(&self) -> Seq<ComponentsView> {
        self.entities@.map_values(|c: Components| c@)
    }
}

impl Components {
    /// A record with no component at all.
    pub fn empty() -> (r: Components)
        ensures
            r@ == ComponentsView::empty(),
    {
        Components {
            transform: None,
            velocity: None,
            accel: None,
            deaccel: None,
            jump: None,
            gravity: None,
            grounded: None,
            controller: None,
            hits: None,
            shape: None,
            prepped: None,
            static_type: None,
            dynamic_type: None,
            trigger_type: None,
        }
    }

    /// The record with `transform` as its transform.
    pub fn with_transform(self, transform: Transform) -> (r: Components)
        ensures
            r@ == (ComponentsView { transform: Some(transform), ..self@ }),
    {
        Components { transform: Some(transform), ..self }
    }

    /// The record with the components of `bundle`.
    pub fn with_movement(self, bundle: CharacterMovementBundle) -> (r: Components)
        ensures
            r@ == (ComponentsView {
                controller: Some(bundle.controller@),
                velocity: Some(bundle.velocity),
                accel: Some(bundle.accel),
                deaccel: Some(bundle.deaccel),
                jump: Some(bundle.jump),
                gravity: Some(bundle.gravity),
                ..self@
            }),
    {
        Components {
            controller: Some(bundle.controller),
            velocity: Some(bundle.velocity),
            accel: Some(bundle.accel),
            deaccel: Some(bundle.deaccel),
            jump: Some(bundle.jump),
            gravity: Some(bundle.gravity),
            ..self
        }
    }

    /// The record with the components of `bundle`.
    pub fn with_collision(self, bundle: CharacterCollisionBundle) -> (r: Components)
        ensures
            r@ == (ComponentsView {
                hits: Some(bundle.hits@),
                dynamic_type: Some(bundle.dynamic),
                shape: Some(bundle.shape),
                ..self@
            }),
    {
        Components {
            hits: Some(bundle.hits),
            dynamic_type: Some(bundle.dynamic),
            shape: Some(bundle.shape),
            ..self
        }
    }

    /// The record tagged static, with `shape` as its shape.
    pub fn with_static_shape(self, shape: CollisionShape) -> (r: Components)
        ensures
            r@ == (ComponentsView {
                static_type: Some(StaticCollisionType),
                shape: Some(shape),
                ..self@
            }),
    {
        Components { static_type: Some(StaticCollisionType), shape: Some(shape), ..self }
    }
}

impl ComponentsView {
    /// The record with no component at all.
    pub open spec fn empty() -> ComponentsView {
        ComponentsView {
            transform: None,
            velocity: None,
            accel: None,
            deaccel: None,
            jump: None,
            gravity: None,
            grounded: None,
            controller: None,
            hits: None,
            shape: None,
            prepped: None,
            static_type: None,
            dynamic_type: None,
            trigger_type: None,
        }
    }
}

impl World {
    /// Whether `entity` names a record of this world.
    pub open spec fn spec_contains(&self, entity: Entity) -> bool {
        entity.0 < self@.len()
    }

    /// A world without entities.
    pub fn new() -> (r: World)
        ensures
            r@ == Seq::<ComponentsView>::empty(),
    {
        let r = World { entities: Vec::new() };
        assert(r@ =~= Seq::<ComponentsView>::empty());
        r
    }

    /// Number of entities ever spawned.
    pub fn len(&self) -> (r: usize)
        ensures
            r == self@.len(),
    {
        self.entities.len()
    }

    /// Whether `entity` names a record of this world.
    #[verifier::when_used_as_spec(spec_contains)]
    pub fn contains(&self, entity: Entity) -> (r: bool)
        ensures
            r == self.spec_contains(entity),
    {
        entity.0 < self.entities.len()
    }

    /// Adds an entity with the given components and returns its handle.
    pub fn spawn(&mut self, components: Components) -> (r: Entity)
        ensures
            r.0 == old(self)@.len(),
            final(self)@ == old(self)@.push(components@),
    {
        let index = self.entities.len();
        self.entities.push(components);
        assert(self@ =~= old(self)@.push(components@));
        Entity(index)
    }

    /// The record of `entity`.
    pub fn get(&self, entity: Entity) -> (r: &Components)
        requires
            self.contains(entity),
        ensures
            r@ == self@[entity.0 as int],
    {
        &self.entities[entity.0]
    }

    /// Replaces the record of `entity`.
    pub fn set(&mut self, entity: Entity, components: Components)
        requires
            old(self).contains(entity),
        ensures
            final(self)@ == old(self)@.update(entity.0 as int, components@),
    {
        self.entities[entity.0] = components;
        assert(self@ =~= old(self)@.update(entity.0 as int, components@));
    }

    /// Queues `action` for `entity`. Returns whether it was queued: an
    /// entity without a controller, or a handle of another world, takes none.
    pub fn push_action(&mut self, entity: Entity, action: MovementAction) -> (r: bool)
        ensures
            r == (old(self).contains(entity) && old(self)@[entity.0 as int].controller is Some),
            r ==> final(self)@ == old(self)@.update(
                entity.0 as int,
                ComponentsView {
                    controller: Some(old(self)@[entity.0 as int].controller.unwrap().push(action)),
                    ..old(self)@[entity.0 as int]
                },
            ),
            !r ==> final(self)@ == old(self)@,
    {
        if entity.0 >= self.entities.len() {
            return false;
        }
        let queued = match &mut self.entities[entity.0].controller {
            Some(controller) => {
                controller.movement_action_queue.push(action);
                true
            },
            None => false,
        };
        proof {
            if queued {
                assert(self@ =~= old(self)@.update(
                    entity.0 as int,
                    ComponentsView {
                        controller: Some(
                            old(self)@[entity.0 as int].controller.unwrap().push(action),
                        ),
                        ..old(self)@[entity.0 as int]
                    },
                ));
            } else {
                assert(self@ =~= old(self)@);
            }
        }
        queued
    }
}

} // verus!
