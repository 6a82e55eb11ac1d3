//! Movement integration: queued intents, damping and gravity.

use crate::components::{JumpImpulse, MovementAction, Velocity};
use crate::fixed::Fixed;
use crate::vec3::Vec3;
use crate::world::{Components, ComponentsView, World};
use vstd::prelude::*;

verus! {

/// The velocity after one intent.
///
/// A move adds `direction * accel * dt` along x and z. A jump sets the
/// vertical velocity to the impulse if the entity has one and is grounded,
/// and is dropped otherwise.
pub open spec fn apply_action(
    v: Vec3,
    action: MovementAction,
    accel: Fixed,
    jump: Option<JumpImpulse>,
    grounded: bool,
    dt: Fixed,
) -> Vec3 {
    match action {
        MovementAction::Move((x_dir, z_dir)) => Vec3 {
            x: v.x.plus(x_dir.times(accel).times(dt)),
            y: v.y,
            z: v.z.plus(z_dir.times(accel).times(dt)),
        },
        MovementAction::Jump => match jump {
            Some(impulse) => if grounded {
                Vec3 { x: v.x, y: impulse.0, z: v.z }
            } else {
                v
            },
            None => v,
        },
    }
}

/// The velocity after every intent, oldest first.
pub open spec fn apply_actions(
    v: Vec3,
    actions: Seq<MovementAction>,
    accel: Fixed,
    jump: Option<JumpImpulse>,
    grounded: bool,
    dt: Fixed,
) -> Vec3
    decreases actions.len(),
{
    if actions.len() == 0 {
        v
    } else {
        apply_action(
            apply_actions(v, actions.drop_last(), accel, jump, grounded, dt),
            actions.last(),
            accel,
            jump,
            grounded,
            dt,
        )
    }
}

/// The record after its queued intents have been turned into velocity.
/// Only an entity with a controller, an acceleration and a velocity is steered.
pub open spec fn steered(c: ComponentsView, dt: Fixed) -> ComponentsView {
    if c.controller is Some && c.accel is Some && c.velocity is Some {
        ComponentsView {
            velocity: Some(
                Velocity(
                    apply_actions(
                        c.velocity.unwrap().0,
                        c.controller.unwrap(),
                        c.accel.unwrap().0,
                        c.jump,
                        c.grounded is Some,
                        dt,
                    ),
                ),
            ),
            ..c
        }
    } else {
        c
    }
}

/// The record after damping: horizontal velocity times the damping factor.
pub open spec fn damped(c: ComponentsView) -> ComponentsView {
    if c.velocity is Some && c.deaccel is Some {
        let v = c.velocity.unwrap().0;
        let factor = c.deaccel.unwrap().0;
        ComponentsView {
            velocity: Some(Velocity(Vec3 { x: v.x.times(factor), y: v.y, z: v.z.times(factor) })),
            ..c
        }
    } else {
        c
    }
}

/// The record after gravity: an entity that has gravity and is not grounded
/// gains `gravity * dt`.
pub open spec fn pulled(c: ComponentsView, dt: Fixed) -> ComponentsView {
    if c.gravity is Some && c.velocity is Some && c.grounded is None {
        ComponentsView {
            velocity: Some(Velocity(c.velocity.unwrap().0.plus(c.gravity.unwrap().0.scaled(dt)))),
            ..c
        }
    } else {
        c
    }
}

/// The record with its queue of intents emptied.
pub open spec fn without_actions(c: ComponentsView) -> ComponentsView {
    match c.controller {
        Some(_) => ComponentsView { controller: Some(Seq::empty()), ..c },
        None => c,
    }
}

/// Every record steered.
pub open spec fn steer_all(w: Seq<ComponentsView>, dt: Fixed) -> Seq<ComponentsView> {
    w.map_values(|c: ComponentsView| steered(c, dt))
}

/// Every record damped.
pub open spec fn damp_all(w: Seq<ComponentsView>) -> Seq<ComponentsView> {
    w.map_values(|c: ComponentsView| damped(c))
}

/// Every record pulled by gravity.
pub open spec fn pull_all(w: Seq<ComponentsView>, dt: Fixed) -> Seq<ComponentsView> {
    w.map_values(|c: ComponentsView| pulled(c, dt))
}

/// Every queue of intents emptied.
pub open spec fn clear_all_actions(w: Seq<ComponentsView>) -> Seq<ComponentsView> {
    w.map_values(|c: ComponentsView| without_actions(c))
}

fn steer(c: &mut Components, delta_time: Fixed)
    ensures
        final(c)@ == steered(old(c)@, delta_time),
{
    match (&c.controller, c.accel, c.velocity) {
        (Some(controller), Some(accel), Some(velocity)) => {
            let grounded = c.grounded.is_some();
            let jump = c.jump;
            let mut v = velocity.0;
            let mut k: usize = 0;
            while k < controller.movement_action_queue.len()
                invariant
                    k <= controller@.len(),
                    v == apply_actions(
                        velocity.0,
                        controller@.take(k as int),
                        accel.0,
                        jump,
                        grounded,
                        delta_time,
                    ),
                decreases controller@.len() - k,
            {
                proof {
                    let next = controller@.take(k as int + 1);
                    assert(next.drop_last() =~= controller@.take(k as int));
                    assert(next.last() == controller@[k as int]);
                }
                match controller.movement_action_queue[k] {
                    MovementAction::Move((x_dir, z_dir)) => {
                        v.x = v.x.plus(x_dir.times(accel.0).times(delta_time));
                        v.z = v.z.plus(z_dir.times(accel.0).times(delta_time));
                    },
                    MovementAction::Jump => match (jump, grounded) {
                        (Some(impulse), true) => {
                            v.y = impulse.0;
                        },
                        _ => {},
                    },
                }
                k += 1;
            }
            assert(controller@.take(k as int) =~= controller@);
            c.velocity = Some(Velocity(v));
        },
        _ => {},
    }
}

/// Turns the queued intents of every controlled entity into velocity.
pub fn apply_character_movement(world: &mut World, delta_time: Fixed)
    ensures
        final(world)@ == steer_all(old(world)@, delta_time),
{
    let n = world.entities.len();
    let mut i: usize = 0;
    while i < n
        invariant
            i <= n,
            n == world.entities.len(),
            n == old(world)@.len(),
            forall|j: int|
                0 <= j < i ==> world@[j] == steered(#[trigger] old(world)@[j], delta_time),
            forall|j: int| i <= j < n ==> world@[j] == #[trigger] old(world)@[j],
        decreases n - i,
    {
        steer(&mut world.entities[i], delta_time);
        i += 1;
    }
    assert(world@ =~= steer_all(old(world)@, delta_time));
}

fn damp(c: &mut Components)
    ensures
        final(c)@ == damped(old(c)@),
{
    match (c.velocity, c.deaccel) {
        (Some(velocity), Some(damping)) => {
            let v = velocity.0;
            c.velocity = Some(
                Velocity(Vec3 { x: v.x.times(damping.0), y: v.y, z: v.z.times(damping.0) }),
            );
        },
        _ => {},
    }
}

/// Multiplies the horizontal velocity of every damped entity by its factor.
pub fn apply_deacceleration(world: &mut World)
    ensures
        final(world)@ == damp_all(old(world)@),
{
    let n = world.entities.len();
    let mut i: usize = 0;
    while i < n
        invariant
            i <= n,
            n == world.entities.len(),
            n == old(world)@.len(),
            forall|j: int| 0 <= j < i ==> world@[j] == damped(#[trigger] old(world)@[j]),
            forall|j: int| i <= j < n ==> world@[j] == #[trigger] old(world)@[j],
        decreases n - i,
    {
        damp(&mut world.entities[i]);
        i += 1;
    }
    assert(world@ =~= damp_all(old(world)@));
}

fn pull(c: &mut Components, delta_time: Fixed)
    ensures
        final(c)@ == pulled(old(c)@, delta_time),
{
    match (c.gravity, c.velocity) {
        (Some(gravity), Some(velocity)) => {
            if c.grounded.is_none() {
                c.velocity = Some(Velocity(velocity.0.plus(gravity.0.scaled(delta_time))));
            }
        },
        _ => {},
    }
}

/// Accelerates every entity that has gravity and is not grounded.
pub fn apply_gravity(world: &mut World, delta_time: Fixed)
    ensures
        final(world)@ == pull_all(old(world)@, delta_time),
{
    let n = world.entities.len();
    let mut i: usize = 0;
    while i < n
        invariant
            i <= n,
            n == world.entities.len(),
            n == old(world)@.len(),
            forall|j: int|
                0 <= j < i ==> world@[j] == pulled(#[trigger] old(world)@[j], delta_time),
            forall|j: int| i <= j < n ==> world@[j] == #[trigger] old(world)@[j],
        decreases n - i,
    {
        pull(&mut world.entities[i], delta_time);
        i += 1;
    }
    assert(world@ =~= pull_all(old(world)@, delta_time));
}

/// Empties the queue of every controller.
pub fn clear_controller_actions(world: &mut World)
    ensures
        final(world)@ == clear_all_actions(old(world)@),
{
    let n = world.entities.len();
    let mut i: usize = 0;
    while i < n
        invariant
            i <= n,
            n == world.entities.len(),
            n == old(world)@.len(),
            forall|j: int| 0 <= j < i ==> world@[j] == without_actions(#[trigger] old(world)@[j]),
            forall|j: int| i <= j < n ==> world@[j] == #[trigger] old(world)@[j],
        decreases n - i,
    {
        match &mut world.entities[i].controller {
            Some(controller) => {
                controller.movement_action_queue.clear();
            },
            None => {},
        }
        i += 1;
    }
    assert(world@ =~= clear_all_actions(old(world)@));
}

/// A jump intent of an entity without an impulse changes nothing.
pub proof fn lemma_jump_without_impulse_is_dropped(
    v: Vec3,
    accel: Fixed,
    grounded: bool,
    dt: Fixed,
)
    ensures
        apply_action(v, MovementAction::Jump, accel, None, grounded, dt) == v,
{
}

/// A jump intent of an entity that is not grounded changes nothing.
pub proof fn lemma_jump_in_the_air_is_dropped(
    v: Vec3,
    accel: Fixed,
    jump: Option<JumpImpulse>,
    dt: Fixed,
)
    ensures
        apply_action(v, MovementAction::Jump, accel, jump, false, dt) == v,
{
}

/// A jump intent of a grounded entity with an impulse sets the vertical
/// velocity to the impulse and leaves the horizontal velocity alone.
pub proof fn lemma_grounded_jump_sets_impulse(
    v: Vec3,
    accel: Fixed,
    impulse: JumpImpulse,
    dt: Fixed,
)
    ensures
        apply_action(v, MovementAction::Jump, accel, Some(impulse), true, dt) == (Vec3 {
            x: v.x,
            y: impulse.0,
            z: v.z,
        }),
{
}

/// Whatever is queued, the vertical velocity of an entity that is not
/// grounded, or has no impulse, stays as it is: no jump succeeds.
pub proof fn lemma_no_jump_without_ground_and_impulse(
    v: Vec3,
    actions: Seq<MovementAction>,
    accel: Fixed,
    jump: Option<JumpImpulse>,
    grounded: bool,
    dt: Fixed,
)
    requires
        !grounded || jump is None,
    ensures
        apply_actions(v, actions, accel, jump, grounded, dt).y == v.y,
    decreases actions.len(),
{
    if actions.len() > 0 {
        lemma_no_jump_without_ground_and_impulse(
            v,
            actions.drop_last(),
            accel,
            jump,
            grounded,
            dt,
        );
    }
}

} // verus!
