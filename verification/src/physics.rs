//! The tick: a fixed pipeline of stages run to completion once per frame.

use crate::fixed::Fixed;
use crate::grounded::{reground_all, update_grounded};
use crate::movement::{
    apply_character_movement, apply_deacceleration, apply_gravity, clear_all_actions,
    clear_controller_actions, damp_all, damped, pull_all, pulled, steer_all, steered,
};
use crate::resolve::{
    apply_velocity_collisions, bodies_assembled, is_dynamic_collider, resolve_all,
};
use crate::shape::PreppedCollisionShape;
use crate::world::{ComponentsView, World};
use vstd::prelude::*;

verus! {

/// Remembers, per handle, whether the entity carried the static tag when the
/// world was last looked at.
#[derive(Debug)]
pub struct StaticTracker {
    seen: Vec<bool>,
}

/// Runs the physics of a world, one tick at a time.
#[derive(Debug)]
pub struct PhysicsHandler {
    static_tracker: StaticTracker,
}

impl View for StaticTracker {
    type V = Seq<bool>;

    closed spec fn view(&self) -> Seq<bool> {
        self.seen@
    }
}

impl View for PhysicsHandler {
    type V = Seq<bool>;

    /// What the handler's tracker remembers.
    closed spec fn view(&self) -> Seq<bool> {
        self.static_tracker@
    }
}

/// Whether the entity at position `i` was static when last looked at.
pub open spec fn was_static(seen: Seq<bool>, i: int) -> bool {
    0 <= i < seen.len() && seen[i]
}

/// The entity carries the static tag now and did not when last looked at.
pub open spec fn newly_static(c: ComponentsView, seen: bool) -> bool {
    c.static_type is Some && !seen
}

/// Every newly static entity has the transform and the shape that its
/// bounds are computed from.
pub open spec fn statics_assembled(w: Seq<ComponentsView>, seen: Seq<bool>) -> bool {
    forall|i: int|
        0 <= i < w.len() && newly_static(#[trigger] w[i], was_static(seen, i)) ==> w[i].transform
            is Some && w[i].shape is Some
}

/// Every entity that a tick visits has the components the tick reads from it.
pub open spec fn well_assembled(w: Seq<ComponentsView>, seen: Seq<bool>) -> bool {
    statics_assembled(w, seen) && bodies_assembled(w)
}

/// The record with its bounds cached, if it is newly static; the bounds of
/// an entity that was static before are left as they are.
pub open spec fn prepped_if_new(c: ComponentsView, seen: bool) -> ComponentsView {
    if newly_static(c, seen) && c.transform is Some && c.shape is Some {
        ComponentsView {
            prepped: Some(
                PreppedCollisionShape::prepared(
                    c.shape.unwrap(),
                    c.transform.unwrap().translation,
                    c.transform.unwrap().scale,
                ),
            ),
            ..c
        }
    } else {
        c
    }
}

/// Every newly static record with its bounds cached.
pub open spec fn prep_all(w: Seq<ComponentsView>, seen: Seq<bool>) -> Seq<ComponentsView> {
    Seq::new(w.len(), |i: int| prepped_if_new(w[i], was_static(seen, i)))
}

/// What a tracker remembers after looking at `w`.
pub open spec fn track(w: Seq<ComponentsView>) -> Seq<bool> {
    Seq::new(w.len(), |i: int| w[i].static_type is Some)
}

/// The record with its contacts forgotten.
pub open spec fn without_hits(c: ComponentsView) -> ComponentsView {
    match c.hits {
        Some(_) => ComponentsView { hits: Some(Seq::empty()), ..c },
        None => c,
    }
}

/// Every record with its contacts forgotten.
pub open spec fn clear_all_hits(w: Seq<ComponentsView>) -> Seq<ComponentsView> {
    w.map_values(|c: ComponentsView| without_hits(c))
}

/// The world after the integration stages of a tick: new static bounds
/// cached, contacts forgotten, intents applied, damping, gravity.
pub open spec fn integrated(w: Seq<ComponentsView>, seen: Seq<bool>, dt: Fixed) -> Seq<
    ComponentsView,
> {
    pull_all(damp_all(steer_all(clear_all_hits(prep_all(w, seen)), dt)), dt)
}

/// The world after one whole tick: integration, then collision resolution,
/// then groundedness, then emptied intent queues.
pub open spec fn ticked(w: Seq<ComponentsView>, seen: Seq<bool>, dt: Fixed) -> Seq<
    ComponentsView,
> {
    let moving = integrated(w, seen, dt);
    clear_all_actions(reground_all(resolve_all(moving, dt, moving.len())))
}

/// Integration changes neither which entities are dynamic colliders nor
/// which of them have a transform.
pub proof fn lemma_integration_keeps_assembly(w: Seq<ComponentsView>, seen: Seq<bool>, dt: Fixed)
    requires
        bodies_assembled(w),
    ensures
        integrated(w, seen, dt).len() == w.len(),
        bodies_assembled(integrated(w, seen, dt)),
{
    let m = integrated(w, seen, dt);
    assert forall|i: int|
        0 <= i < m.len() && is_dynamic_collider(#[trigger] m[i]) implies m[i].transform is Some by {
        let a = prep_all(w, seen);
        let b = clear_all_hits(a);
        let c = steer_all(b, dt);
        let d = damp_all(c);
        assert(a[i] == prepped_if_new(w[i], was_static(seen, i)));
        assert(b[i] == without_hits(a[i]));
        assert(c[i] == steered(b[i], dt));
        assert(d[i] == damped(c[i]));
        assert(m[i] == pulled(d[i], dt));
        assert(is_dynamic_collider(w[i]));
    }
}

impl StaticTracker {
    /// A tracker that has not looked at any world yet.
    pub fn new() -> (r: StaticTracker)
        ensures
            r@ == Seq::<bool>::empty(),
    {
        StaticTracker { seen: Vec::new() }
    }

    /// Whether this tracker saw the static tag on the entity at position `i`.
    fn saw(&self, i: usize) -> (r: bool)
        ensures
            r == was_static(self@, i as int),
    {
        i < self.seen.len() && self.seen[i]
    }
}

/// Caches the bounds of every entity that became static since `tracker`
/// last looked, and lets the tracker look again.
pub fn prep_new_static(world: &mut World, tracker: &mut StaticTracker)
    requires
        statics_assembled(old(world)@, old(tracker)@),
    ensures
        final(world)@ == prep_all(old(world)@, old(tracker)@),
        final(tracker)@ == track(old(world)@),
{
    let n = world.entities.len();
    let mut seen: Vec<bool> = Vec::new();
    let mut i: usize = 0;
    while i < n
        invariant
            i <= n,
            n == world.entities.len(),
            n == old(world)@.len(),
            tracker@ == old(tracker)@,
            statics_assembled(old(world)@, old(tracker)@),
            seen@.len() == i,
            forall|j: int|
                0 <= j < i ==> seen@[j] == (#[trigger] old(world)@[j]).static_type is Some,
            forall|j: int|
                0 <= j < i ==> world@[j] == prepped_if_new(
                    #[trigger] old(world)@[j],
                    was_static(old(tracker)@, j),
                ),
            forall|j: int| i <= j < n ==> world@[j] == #[trigger] old(world)@[j],
        decreases n - i,
    {
        let is_static = world.entities[i].static_type.is_some();
        if is_static && !tracker.saw(i) {
            assert(newly_static(old(world)@[i as int], was_static(old(tracker)@, i as int)));
            let transform = world.entities[i].transform.unwrap();
            let shape = world.entities[i].shape.unwrap();
            let prepped = PreppedCollisionShape::from_collision_shape(
                &shape,
                transform.translation,
                transform.scale,
            );
            world.entities[i].prepped = Some(prepped);
        }
        seen.push(is_static);
        i += 1;
    }
    tracker.seen = seen;
    assert(world@ =~= prep_all(old(world)@, old(tracker)@));
    assert(tracker@ =~= track(old(world)@));
}

/// Forgets the contacts of every entity.
pub fn clear_collision_hits(world: &mut World)
    ensures
        final(world)@ == clear_all_hits(old(world)@),
{
    let n = world.entities.len();
    let mut i: usize = 0;
    while i < n
        invariant
            i <= n,
            n == world.entities.len(),
            n == old(world)@.len(),
            forall|j: int| 0 <= j < i ==> world@[j] == without_hits(#[trigger] old(world)@[j]),
            forall|j: int| i <= j < n ==> world@[j] == #[trigger] old(world)@[j],
        decreases n - i,
    {
        match &mut world.entities[i].hits {
            Some(hits) => {
                hits.clear();
            },
            None => {},
        }
        i += 1;
    }
    assert(world@ =~= clear_all_hits(old(world)@));
}

impl PhysicsHandler {
    /// A handler that has not run a tick yet.
    pub fn new() -> (r: PhysicsHandler)
        ensures
            r@ == Seq::<bool>::empty(),
    {
        PhysicsHandler { static_tracker: StaticTracker::new() }
    }

    /// Whether `world` can be ticked: every entity that became static since
    /// the last tick has a transform and a shape, and every dynamic collider
    /// has a transform.
    pub fn accepts(&self, world: &World) -> (r: bool)
        ensures
            r == well_assembled(world@, self@),
    {
        let n = world.entities.len();
        let mut i: usize = 0;
        while i < n
            invariant
                i <= n,
                n == world@.len(),
                forall|j: int|
                    0 <= j < i && newly_static(#[trigger] world@[j], was_static(self@, j))
                        ==> world@[j].transform is Some && world@[j].shape is Some,
                forall|j: int|
                    0 <= j < i && is_dynamic_collider(#[trigger] world@[j])
                        ==> world@[j].transform is Some,
            decreases n - i,
        {
            let c = &world.entities[i];
            let new_static = c.static_type.is_some() && !self.static_tracker.saw(i);
            let collider = c.shape.is_some() && c.dynamic_type.is_some()
                && c.static_type.is_none() && c.trigger_type.is_none();
            if new_static && (c.transform.is_none() || c.shape.is_none()) {
                assert(newly_static(world@[i as int], was_static(self@, i as int)));
                return false;
            }
            if collider && c.transform.is_none() {
                assert(is_dynamic_collider(world@[i as int]));
                return false;
            }
            i += 1;
        }
        true
    }

    /// Runs one tick of `delta_time` seconds on `world`.
    pub fn tick_physics(&mut self, world: &mut World, delta_time: Fixed)
        requires
            well_assembled(old(world)@, old(self)@),
        ensures
            final(world)@ == ticked(old(world)@, old(self)@, delta_time),
            final(self)@ == track(old(world)@),
    {
        prep_new_static(world, &mut self.static_tracker);
        clear_collision_hits(world);

        apply_character_movement(world, delta_time);
        apply_deacceleration(world);
        apply_gravity(world, delta_time);

        proof {
            lemma_integration_keeps_assembly(old(world)@, old(self)@, delta_time);
        }
        apply_velocity_collisions(world, delta_time);
        update_grounded(world);

        clear_controller_actions(world);
    }
}

impl Default for PhysicsHandler {
    fn default() -> (r: PhysicsHandler)
        ensures
            r@ == Seq::<bool>::empty(),
    {
        PhysicsHandler::new()
    }
}

} // verus!
