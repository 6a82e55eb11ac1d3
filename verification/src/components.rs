//! The component types the simulation reads and writes.

use crate::direction::CollisionDirection;
use crate::fixed::Fixed;
use crate::shape::CollisionShape;
use crate::vec3::{Quat, Vec3};
use vstd::prelude::*;

verus! {

/// A stable handle to one entity of a world: its position in the registry.
#[derive(Clone, Copy, Debug, PartialEq, Eq, Structural)]
pub struct Entity(pub usize);

/// Where an entity is, how it is turned and how it is stretched.
#[derive(Clone, Copy, Debug, PartialEq, Eq)]
pub struct Transform {
    pub translation: Vec3,
    pub rotation: Quat,
    pub scale: Vec3,
}

/// One queued movement intent.
#[derive(Clone, Copy, Debug, PartialEq, Eq)]
pub enum MovementAction {
    /// Accelerate along x and z by the given direction.
    Move((Fixed, Fixed)),
    /// Leave the ground, if standing on it.
    Jump,
}

/// The intents queued for an entity since the last tick, oldest first.
#[derive(Debug)]
pub struct CharacterController {
    pub movement_action_queue: Vec<MovementAction>,
}

/// Units per second along each axis.
#[derive(Clone, Copy, Debug, PartialEq, Eq)]
pub struct Velocity(pub Vec3);

/// Acceleration that a full-strength move intent applies.
#[derive(Clone, Copy, Debug, PartialEq, Eq)]
pub struct Accel(pub Fixed);

/// Factor by which horizontal velocity is multiplied every tick.
#[derive(Clone, Copy, Debug, PartialEq, Eq)]
pub struct DeaccelDampingFactor(pub Fixed);

/// Vertical velocity that a jump sets.
#[derive(Clone, Copy, Debug, PartialEq, Eq)]
pub struct JumpImpulse(pub Fixed);

/// Acceleration applied every tick while the entity is not grounded.
#[derive(Clone, Copy, Debug, PartialEq, Eq)]
pub struct Gravity(pub Vec3);

/// Marks an entity that rested on a surface below it at the end of the last tick.
#[derive(Clone, Copy, Debug, PartialEq, Eq)]
pub struct Grounded;

/// Marks a collider that moves and is stopped by static ones.
#[derive(Clone, Copy, Debug, PartialEq, Eq)]
pub struct DynamicCollisionType;

/// Marks a collider that never moves and stops dynamic ones.
#[derive(Clone, Copy, Debug, PartialEq, Eq)]
pub struct StaticCollisionType;

/// Marks a collider that takes no part in collision resolution.
#[derive(Clone, Copy, Debug, PartialEq, Eq)]
pub struct TriggerCollisionType;

/// The contacts an entity made during the current tick, in the order they
/// were resolved.
#[derive(Debug)]
pub struct CollisionHits {
    hits: Vec<(Entity, CollisionDirection)>,
}

impl View for CharacterController {
    type V = Seq<MovementAction>;

    open spec fn view(&self) -> Seq<MovementAction> {
        self.movement_action_queue@
    }
}

impl View for CollisionHits {
    type V = Seq<(Entity, CollisionDirection)>;

    closed spec fn view(&self) -> Seq<(Entity, CollisionDirection)> {
        self.hits@
    }
}

impl Transform {
    /// An unrotated, unstretched transform at `translation`.
    pub fn from_translation(translation: Vec3) -> (r: Transform)
        ensures
            r.translation == translation,
            r.rotation.x@ == 0 && r.rotation.y@ == 0 && r.rotation.z@ == 0,
            r.rotation.w@ == crate::fixed::SCALE,
            r.scale.x@ == crate::fixed::SCALE,
            r.scale.y@ == crate::fixed::SCALE,
            r.scale.z@ == crate::fixed::SCALE,
    {
        Transform {
            translation,
            rotation: Quat::identity(),
            scale: Vec3 { x: Fixed::one(), y: Fixed::one(), z: Fixed::one() },
        }
    }
}

impl CharacterController {
    /// A controller with nothing queued.
    pub fn new() -> (r: CharacterController)
        ensures
            r@ == Seq::<MovementAction>::empty(),
    {
        CharacterController { movement_action_queue: Vec::new() }
    }
}

impl CollisionHits {
    /// An empty record.
    pub fn new() -> (r: CollisionHits)
        ensures
            r@ == Seq::<(Entity, CollisionDirection)>::empty(),
    {
        CollisionHits { hits: Vec::new() }
    }

    /// Number of contacts recorded.
    pub fn len(&self) -> (r: usize)
        ensures
            r == self@.len(),
    {
        self.hits.len()
    }

    /// The contact at position `i`.
    pub fn get(&self, i: usize) -> (r: (Entity, CollisionDirection))
        requires
            i < self@.len(),
        ensures
            r == self@[i as int],
    {
        self.hits[i]
    }

    /// Appends one contact.
    pub fn push(&mut self, other: Entity, direction: CollisionDirection)
        ensures
            final(self)@ == old(self)@.push((other, direction)),
    {
        self.hits.push((other, direction));
    }

    /// Forgets every contact.
    pub fn clear(&mut self)
        ensures
            final(self)@ == Seq::<(Entity, CollisionDirection)>::empty(),
    {
        self.hits.clear();
    }
}

impl Default for CollisionHits {
    fn default() -> (r: CollisionHits)
        ensures
            r@ == Seq::<(Entity, CollisionDirection)>::empty(),
    {
        CollisionHits::new()
    }
}

/// The components that make an entity move like a character.
#[derive(Debug)]
pub struct CharacterMovementBundle {
    pub controller: CharacterController,
    pub velocity: Velocity,
    pub accel: Accel,
    pub deaccel: DeaccelDampingFactor,
    pub jump: JumpImpulse,
    pub gravity: Gravity,
}

/// The components that make an entity collide like a character.
#[derive(Debug)]
pub struct CharacterCollisionBundle {
    pub hits: CollisionHits,
    pub dynamic: DynamicCollisionType,
    pub shape: CollisionShape,
}

impl Default for CharacterMovementBundle {
    /// At rest, nothing queued; acceleration 1300, damping 0.9, jump impulse
    /// 200, gravity 400 downward.
    fn default() -> (r: CharacterMovementBundle)
        ensures
            r.controller@ == Seq::<MovementAction>::empty(),
            r.velocity.0.is_zero(),
            r.accel.0@ == 1_300_000,
            r.deaccel.0@ == 900,
            r.jump.0@ == 200_000,
            r.gravity.0.x@ == 0,
            r.gravity.0.y@ == -400_000,
            r.gravity.0.z@ == 0,
    {
        CharacterMovementBundle {
            controller: CharacterController::new(),
            velocity: Velocity(Vec3::zero()),
            accel: Accel(Fixed::from_int(1300)),
            deaccel: DeaccelDampingFactor(Fixed::from_raw(900)),
            jump: JumpImpulse(Fixed::from_int(200)),
            gravity: Gravity(Vec3::from_ints(0, -400, 0)),
        }
    }
}

impl Default for CharacterCollisionBundle {
    /// No contacts, and a box of half extent 20 on every axis.
    fn default() -> (r: CharacterCollisionBundle)
        ensures
            r.hits@ == Seq::<(Entity, CollisionDirection)>::empty(),
            r.shape.half_extents().x@ == 20_000,
            r.shape.half_extents().y@ == 20_000,
            r.shape.half_extents().z@ == 20_000,
    {
        CharacterCollisionBundle {
            hits: CollisionHits::default(),
            dynamic: DynamicCollisionType,
            shape: CollisionShape::Box {
                half_width: Fixed::from_int(20),
                half_height: Fixed::from_int(20),
                half_depth: Fixed::from_int(20),
            },
        }
    }
}

impl CharacterCollisionBundle {
    /// No contacts, and the given shape.
    pub fn from_shape(shape: CollisionShape) -> (r: CharacterCollisionBundle)
        ensures
            r.hits@ == Seq::<(Entity, CollisionDirection)>::empty(),
            r.shape == shape,
    {
        CharacterCollisionBundle {
            hits: CollisionHits::default(),
            dynamic: DynamicCollisionType,
            shape,
        }
    }
}

} // verus!
