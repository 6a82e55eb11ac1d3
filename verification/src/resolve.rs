//! Axis-separated collision resolution of dynamic colliders against the
//! cached bounds of static ones.

use crate::components::{Entity, Transform, Velocity};
use crate::direction::{Axis, CollisionDirection};
use crate::fixed::{lemma_plus_zero, lemma_times_unit, Fixed};
use crate::shape::PreppedCollisionShape;
use crate::world::{ComponentsView, World};
use vstd::prelude::*;

verus! {

/// A collider that the resolver moves: it has a place, a velocity and a
/// shape, and is tagged dynamic and nothing else.
pub open spec fn is_dynamic_body(c: ComponentsView) -> bool {
    &&& c.transform is Some
    &&& c.velocity is Some
    &&& c.shape is Some
    &&& c.dynamic_type is Some
    &&& c.static_type is None
    &&& c.trigger_type is None
}

/// A collider tagged dynamic and nothing else.
pub open spec fn is_dynamic_collider(c: ComponentsView) -> bool {
    &&& c.shape is Some
    &&& c.dynamic_type is Some
    &&& c.static_type is None
    &&& c.trigger_type is None
}

/// Every dynamic collider has a place in the world.
pub open spec fn bodies_assembled(w: Seq<ComponentsView>) -> bool {
    forall|i: int|
        0 <= i < w.len() && is_dynamic_collider(#[trigger] w[i]) ==> w[i].transform is Some
}

/// A collider that the resolver tests against: it has cached bounds, and is
/// tagged static and nothing else.
pub open spec fn is_static_obstacle(c: ComponentsView) -> bool {
    &&& c.prepped is Some
    &&& c.static_type is Some
    &&& c.dynamic_type is None
    &&& c.trigger_type is None
}

/// `s` is a static obstacle of `w` whose cached bounds overlap `shape`.
pub open spec fn obstructs(
    w: Seq<ComponentsView>,
    s: Entity,
    shape: PreppedCollisionShape,
) -> bool {
    &&& s.0 < w.len()
    &&& is_static_obstacle(w[s.0 as int])
    &&& shape.overlaps(w[s.0 as int].prepped.unwrap())
}

/// The candidates that obstruct `shape`, in the order of `candidates`.
pub open spec fn obstructing(
    w: Seq<ComponentsView>,
    candidates: Seq<Entity>,
    shape: PreppedCollisionShape,
) -> Seq<Entity>
    decreases candidates.len(),
{
    if candidates.len() == 0 {
        Seq::empty()
    } else {
        let rest = obstructing(w, candidates.drop_last(), shape);
        if obstructs(w, candidates.last(), shape) {
            rest.push(candidates.last())
        } else {
            rest
        }
    }
}

/// The handles of the first `n` entities, in ascending order.
pub open spec fn all_entities(n: nat) -> Seq<Entity> {
    Seq::new(n, |i: int| Entity(i as usize))
}

/// The record with one more contact, if it keeps contacts at all.
pub open spec fn with_hit(
    c: ComponentsView,
    entry: (Entity, CollisionDirection),
) -> ComponentsView {
    match c.hits {
        Some(h) => ComponentsView { hits: Some(h.push(entry)), ..c },
        None => c,
    }
}

/// The record with one contact per target, all in the same direction.
pub open spec fn with_hits(
    c: ComponentsView,
    targets: Seq<Entity>,
    direction: CollisionDirection,
) -> ComponentsView
    decreases targets.len(),
{
    if targets.len() == 0 {
        c
    } else {
        with_hit(with_hits(c, targets.drop_last(), direction), (targets.last(), direction))
    }
}

/// The world after `target` has recorded `entry`.
pub open spec fn record_hit(
    w: Seq<ComponentsView>,
    target: Entity,
    entry: (Entity, CollisionDirection),
) -> Seq<ComponentsView> {
    if target.0 < w.len() {
        w.update(target.0 as int, with_hit(w[target.0 as int], entry))
    } else {
        w
    }
}

/// The world after every target, in order, has recorded `entry`.
pub open spec fn record_hits(
    w: Seq<ComponentsView>,
    targets: Seq<Entity>,
    entry: (Entity, CollisionDirection),
) -> Seq<ComponentsView>
    decreases targets.len(),
{
    if targets.len() == 0 {
        w
    } else {
        record_hit(record_hits(w, targets.drop_last(), entry), targets.last(), entry)
    }
}

/// The record with its velocity along `axis` set to zero.
pub open spec fn stopped(c: ComponentsView, axis: Axis) -> ComponentsView {
    match c.velocity {
        Some(v) => ComponentsView {
            velocity: Some(Velocity(v.0.with_component(axis, Fixed { raw: 0 }))),
            ..c
        },
        None => c,
    }
}

/// The transform moved by `amount` along `axis`.
pub open spec fn shifted(t: Transform, axis: Axis, amount: Fixed) -> Transform {
    Transform {
        translation: t.translation.with_component(
            axis,
            t.translation.component(axis).plus(amount),
        ),
        ..t
    }
}

/// The displacement of a body along `axis` over `dt`: its velocity along
/// the axis times the time step.
pub open spec fn displacement(c: ComponentsView, axis: Axis, dt: Fixed) -> Fixed {
    c.velocity.unwrap().0.component(axis).times(dt)
}

/// The bounds of a body after its displacement along `axis` alone.
pub open spec fn displaced_bounds(c: ComponentsView, axis: Axis, dt: Fixed) -> PreppedCollisionShape {
    let moved = shifted(c.transform.unwrap(), axis, displacement(c, axis, dt));
    PreppedCollisionShape::prepared(c.shape.unwrap(), moved.translation, moved.scale)
}

/// The candidates that are in the way of `e` on `axis`.
pub open spec fn blockers(
    w: Seq<ComponentsView>,
    dt: Fixed,
    e: Entity,
    axis: Axis,
    candidates: Seq<Entity>,
) -> Seq<Entity> {
    obstructing(w, candidates, displaced_bounds(w[e.0 as int], axis, dt))
}

/// One axis of the resolution of `e` against `candidates`.
///
/// A zero displacement does nothing. Otherwise the body is tried at the
/// displaced place: if no candidate is in the way, it moves there; if some
/// are, it stays, loses its velocity along the axis, and records each of
/// them with the direction of travel, while each of them records it with
/// the opposite direction.
pub open spec fn axis_step(
    w: Seq<ComponentsView>,
    dt: Fixed,
    e: Entity,
    axis: Axis,
    candidates: Seq<Entity>,
) -> Seq<ComponentsView> {
    if !(e.0 < w.len() && is_dynamic_body(w[e.0 as int])) {
        w
    } else {
        let c = w[e.0 as int];
        let amount = displacement(c, axis, dt);
        if amount@ == 0 {
            w
        } else {
            let direction = CollisionDirection::along(axis, amount);
            let hit = blockers(w, dt, e, axis, candidates);
            if hit.len() == 0 {
                w.update(
                    e.0 as int,
                    ComponentsView {
                        transform: Some(shifted(c.transform.unwrap(), axis, amount)),
                        ..c
                    },
                )
            } else {
                let w2 = record_hits(w, hit, (e, direction.flip()));
                w2.update(e.0 as int, with_hits(stopped(w2[e.0 as int], axis), hit, direction))
            }
        }
    }
}

/// Whether `entity` is a dynamic body of `world`.
fn is_dynamic(world: &World, entity: Entity) -> (r: bool)
    ensures
        r == (entity.0 < world@.len() && is_dynamic_body(world@[entity.0 as int])),
{
    if entity.0 >= world.entities.len() {
        return false;
    }
    let c = &world.entities[entity.0];
    c.transform.is_some() && c.velocity.is_some() && c.shape.is_some() && c.dynamic_type.is_some()
        && c.static_type.is_none() && c.trigger_type.is_none()
}

/// Whether `s` is a static obstacle of `world` that overlaps `shape`.
fn obstructed_by(world: &World, s: Entity, shape: &PreppedCollisionShape) -> (r: bool)
    ensures
        r == obstructs(world@, s, *shape),
{
    if s.0 >= world.entities.len() {
        return false;
    }
    let c = &world.entities[s.0];
    if c.static_type.is_none() || c.dynamic_type.is_some() || c.trigger_type.is_some() {
        return false;
    }
    match &c.prepped {
        Some(bounds) => shape.check_collision(bounds),
        None => false,
    }
}

/// The candidates that obstruct `shape`, in the order given.
fn collect_obstructing(
    world: &World,
    candidates: &Vec<Entity>,
    shape: &PreppedCollisionShape,
) -> (hit: Vec<Entity>)
    ensures
        hit@ == obstructing(world@, candidates@, *shape),
{
    let mut hit: Vec<Entity> = Vec::new();
    let mut k: usize = 0;
    while k < candidates.len()
        invariant
            k <= candidates.len(),
            hit@ == obstructing(world@, candidates@.take(k as int), *shape),
        decreases candidates.len() - k,
    {
        let s = candidates[k];
        proof {
            let next = candidates@.take(k as int + 1);
            assert(next.drop_last() =~= candidates@.take(k as int));
            assert(next.last() == s);
        }
        if obstructed_by(world, s, shape) {
            hit.push(s);
        }
        k += 1;
    }
    assert(candidates@.take(k as int) =~= candidates@);
    hit
}

/// Every static obstacle of the world that overlaps `shape`, by ascending handle.
fn overlapping_statics(world: &World, shape: &PreppedCollisionShape) -> (hit: Vec<Entity>)
    ensures
        hit@ == obstructing(world@, all_entities(world@.len()), *shape),
{
    let mut hit: Vec<Entity> = Vec::new();
    let n = world.entities.len();
    let mut i: usize = 0;
    while i < n
        invariant
            i <= n,
            n == world@.len(),
            hit@ == obstructing(world@, all_entities(i as nat), *shape),
        decreases n - i,
    {
        let s = Entity(i);
        proof {
            let next = all_entities((i + 1) as nat);
            assert(next.drop_last() =~= all_entities(i as nat));
            assert(next.last() == s);
        }
        if obstructed_by(world, s, shape) {
            hit.push(s);
        }
        i += 1;
    }
    hit
}

/// Lets every target that keeps contacts record one with `other`.
fn record_static_hits(
    world: &mut World,
    targets: &Vec<Entity>,
    other: Entity,
    direction: CollisionDirection,
)
    ensures
        final(world)@ == record_hits(old(world)@, targets@, (other, direction)),
{
    let mut k: usize = 0;
    while k < targets.len()
        invariant
            k <= targets.len(),
            world@ == record_hits(old(world)@, targets@.take(k as int), (other, direction)),
        decreases targets.len() - k,
    {
        let s = targets[k];
        let ghost before = world@;
        proof {
            let next = targets@.take(k as int + 1);
            assert(next.drop_last() =~= targets@.take(k as int));
            assert(next.last() == s);
        }
        if s.0 < world.entities.len() {
            match &mut world.entities[s.0].hits {
                Some(h) => {
                    h.push(other, direction);
                },
                None => {},
            }
            assert(world@ =~= record_hit(before, s, (other, direction)));
        }
        k += 1;
    }
    assert(targets@.take(k as int) =~= targets@);
}

/// Takes away the velocity of `e` along `axis`.
fn stop_axis(world: &mut World, e: Entity, axis: Axis)
    requires
        e.0 < old(world)@.len(),
    ensures
        final(world)@ == old(world)@.update(e.0 as int, stopped(old(world)@[e.0 as int], axis)),
{
    match world.entities[e.0].velocity {
        Some(v) => {
            world.entities[e.0].velocity = Some(
                Velocity(v.0.with_component(axis, Fixed::zero())),
            );
        },
        None => {},
    }
    assert(world@ =~= old(world)@.update(e.0 as int, stopped(old(world)@[e.0 as int], axis)));
}

/// Lets `e`, if it keeps contacts, record one with every target.
fn record_dynamic_hits(
    world: &mut World,
    e: Entity,
    targets: &Vec<Entity>,
    direction: CollisionDirection,
)
    requires
        e.0 < old(world)@.len(),
    ensures
        final(world)@ == old(world)@.update(
            e.0 as int,
            with_hits(old(world)@[e.0 as int], targets@, direction),
        ),
{
    let mut k: usize = 0;
    assert(world@ =~= old(world)@.update(e.0 as int, old(world)@[e.0 as int]));
    while k < targets.len()
        invariant
            k <= targets.len(),
            e.0 < old(world)@.len(),
            world.entities.len() == old(world)@.len(),
            world@ == old(world)@.update(
                e.0 as int,
                with_hits(old(world)@[e.0 as int], targets@.take(k as int), direction),
            ),
        decreases targets.len() - k,
    {
        let s = targets[k];
        let ghost before = world@;
        proof {
            let next = targets@.take(k as int + 1);
            assert(next.drop_last() =~= targets@.take(k as int));
            assert(next.last() == s);
        }
        match &mut world.entities[e.0].hits {
            Some(h) => {
                h.push(s, direction);
            },
            None => {},
        }
        assert(world@ =~= before.update(e.0 as int, with_hit(before[e.0 as int], (s, direction))));
        k += 1;
    }
    assert(targets@.take(k as int) =~= targets@);
}

/// Moves `dynamic_entity` along one axis unless a candidate is in the way.
///
/// A candidate that is not a static obstacle of the world is never in the
/// way, and a handle that is not a dynamic body is left alone.
pub fn do_axis_collision(
    world: &mut World,
    delta_time: Fixed,
    dynamic_entity: Entity,
    axis: Axis,
    check_against: &Vec<Entity>,
)
    ensures
        final(world)@ == axis_step(
            old(world)@,
            delta_time,
            dynamic_entity,
            axis,
            check_against@,
        ),
{
    if !is_dynamic(world, dynamic_entity) {
        return ;
    }
    let e = dynamic_entity.0;
    let velocity = world.entities[e].velocity.unwrap();
    let transform = world.entities[e].transform.unwrap();
    let shape = world.entities[e].shape.unwrap();

    let mask = axis.get_scale();
    let movement = velocity.0.times(mask).scaled(delta_time);
    let direction = CollisionDirection::from_axis(axis, &movement);
    let ghost amount = velocity.0.component(axis).times(delta_time);
    proof {
        lemma_times_unit(velocity.0.x, mask.x);
        lemma_times_unit(velocity.0.y, mask.y);
        lemma_times_unit(velocity.0.z, mask.z);
        lemma_times_unit(velocity.0.x.times(mask.x), delta_time);
        lemma_times_unit(velocity.0.y.times(mask.y), delta_time);
        lemma_times_unit(velocity.0.z.times(mask.z), delta_time);
        assert(movement.component(axis) == amount);
        assert(forall|other: Axis| other != axis ==> movement.component(other)@ == 0);
    }
    if movement.is_zero() {
        return ;
    }
    let moved = Transform {
        translation: transform.translation.plus(movement),
        rotation: transform.rotation,
        scale: transform.scale,
    };
    proof {
        lemma_plus_zero(transform.translation.x, movement.x);
        lemma_plus_zero(transform.translation.y, movement.y);
        lemma_plus_zero(transform.translation.z, movement.z);
        assert(movement.component(Axis::X)@ == 0 || axis == Axis::X);
        assert(movement.component(Axis::Y)@ == 0 || axis == Axis::Y);
        assert(movement.component(Axis::Z)@ == 0 || axis == Axis::Z);
        assert(moved == shifted(transform, axis, amount));
    }
    let prepped = PreppedCollisionShape::from_collision_shape(
        &shape,
        moved.translation,
        moved.scale,
    );
    let hit = collect_obstructing(world, check_against, &prepped);
    if hit.is_empty() {
        world.entities[e].transform = Some(moved);
        assert(world@ =~= old(world)@.update(
            e as int,
            ComponentsView { transform: Some(moved), ..old(world)@[e as int] },
        ));
    } else {
        record_static_hits(world, &hit, dynamic_entity, direction.flip());
        proof {
            lemma_record_hits_frame(old(world)@, hit@, (dynamic_entity, direction.flip()));
        }
        let ghost w2 = world@;
        stop_axis(world, dynamic_entity, axis);
        record_dynamic_hits(world, dynamic_entity, &hit, direction);
        assert(world@ =~= w2.update(
            e as int,
            with_hits(stopped(w2[e as int], axis), hit@, direction),
        ));
    }
}

/// The resolution of one entity.
///
/// Only a dynamic body with a velocity other than zero takes part. It is
/// first tried at its place after the whole step. If no static obstacle
/// overlaps it there, it moves there. Otherwise it stays, and the
/// obstacles found there are the candidates of three single-axis steps,
/// taken in the order x, z, y.
pub open spec fn resolve_entity(w: Seq<ComponentsView>, dt: Fixed, e: Entity) -> Seq<
    ComponentsView,
> {
    if !(e.0 < w.len() && is_dynamic_body(w[e.0 as int])) {
        w
    } else {
        let c = w[e.0 as int];
        let velocity = c.velocity.unwrap().0;
        if velocity.is_zero() {
            w
        } else {
            let t = c.transform.unwrap();
            let moved = Transform { translation: t.translation.plus(velocity.scaled(dt)), ..t };
            let shape = PreppedCollisionShape::prepared(
                c.shape.unwrap(),
                moved.translation,
                moved.scale,
            );
            let candidates = obstructing(w, all_entities(w.len()), shape);
            if candidates.len() == 0 {
                w.update(e.0 as int, ComponentsView { transform: Some(moved), ..c })
            } else {
                let after_x = axis_step(w, dt, e, Axis::X, candidates);
                let after_z = axis_step(after_x, dt, e, Axis::Z, candidates);
                axis_step(after_z, dt, e, Axis::Y, candidates)
            }
        }
    }
}

/// The resolution of the first `n` entities, by ascending handle.
pub open spec fn resolve_all(w: Seq<ComponentsView>, dt: Fixed, n: nat) -> Seq<ComponentsView>
    decreases n,
{
    if n == 0 {
        w
    } else {
        resolve_entity(resolve_all(w, dt, (n - 1) as nat), dt, Entity((n - 1) as usize))
    }
}

/// Resolves one entity against the static obstacles of the world.
pub fn resolve_dynamic(world: &mut World, delta_time: Fixed, dynamic_entity: Entity)
    ensures
        final(world)@ == resolve_entity(old(world)@, delta_time, dynamic_entity),
{
    if !is_dynamic(world, dynamic_entity) {
        return ;
    }
    let e = dynamic_entity.0;
    let velocity = world.entities[e].velocity.unwrap();
    let transform = world.entities[e].transform.unwrap();
    let shape = world.entities[e].shape.unwrap();
    if velocity.0.is_zero() {
        return ;
    }
    let movement = velocity.0.scaled(delta_time);
    let moved = Transform {
        translation: transform.translation.plus(movement),
        rotation: transform.rotation,
        scale: transform.scale,
    };
    let prepped = PreppedCollisionShape::from_collision_shape(
        &shape,
        moved.translation,
        moved.scale,
    );
    let static_hits = overlapping_statics(world, &prepped);
    if static_hits.is_empty() {
        world.entities[e].transform = Some(moved);
        assert(world@ =~= old(world)@.update(
            e as int,
            ComponentsView { transform: Some(moved), ..old(world)@[e as int] },
        ));
        return ;
    }
    do_axis_collision(world, delta_time, dynamic_entity, Axis::X, &static_hits);
    do_axis_collision(world, delta_time, dynamic_entity, Axis::Z, &static_hits);
    do_axis_collision(world, delta_time, dynamic_entity, Axis::Y, &static_hits);
}

/// Moves every dynamic body by its velocity over `delta_time`, stopping it
/// axis by axis where a static obstacle is in the way.
pub fn apply_velocity_collisions(world: &mut World, delta_time: Fixed)
    requires
        bodies_assembled(old(world)@),
    ensures
        final(world)@ == resolve_all(old(world)@, delta_time, old(world)@.len()),
{
    let n = world.entities.len();
    let mut i: usize = 0;
    while i < n
        invariant
            i <= n,
            n == old(world)@.len(),
            world@ == resolve_all(old(world)@, delta_time, i as nat),
        decreases n - i,
    {
        resolve_dynamic(world, delta_time, Entity(i));
        i += 1;
    }
}

/// The later list, if any, starts with the earlier one: contacts were at
/// most added.
pub open spec fn extends(
    later: Option<Seq<(Entity, CollisionDirection)>>,
    earlier: Option<Seq<(Entity, CollisionDirection)>>,
) -> bool {
    match (earlier, later) {
        (Some(b), Some(a)) => b.len() <= a.len() && forall|k: int|
            #![trigger a[k]]
            #![trigger b[k]]
            0 <= k < b.len() ==> a[k] == b[k],
        (None, None) => true,
        _ => false,
    }
}

/// The later transform, if any, differs from the earlier one at most in
/// its translation.
pub open spec fn only_translated(earlier: Option<Transform>, later: Option<Transform>) -> bool {
    match (earlier, later) {
        (Some(b), Some(a)) => a.rotation == b.rotation && a.scale == b.scale,
        (None, None) => true,
        _ => false,
    }
}

/// The second record is the first with, at most, contacts added.
pub open spec fn same_but_hits(a: ComponentsView, b: ComponentsView) -> bool {
    &&& b == (ComponentsView { hits: b.hits, ..a })
    &&& extends(b.hits, a.hits)
}

/// The second record is the first with, at most, another translation,
/// another velocity and contacts added.
pub open spec fn same_but_motion(a: ComponentsView, b: ComponentsView) -> bool {
    &&& b == (ComponentsView { transform: b.transform, velocity: b.velocity, hits: b.hits, ..a })
    &&& only_translated(a.transform, b.transform)
    &&& (a.velocity is Some <==> b.velocity is Some)
    &&& extends(b.hits, a.hits)
}

/// Everything that obstructs is a static obstacle.
pub proof fn lemma_obstructing_are_obstacles(
    w: Seq<ComponentsView>,
    candidates: Seq<Entity>,
    shape: PreppedCollisionShape,
)
    ensures
        forall|k: int|
            0 <= k < obstructing(w, candidates, shape).len() ==> obstructs(
                w,
                #[trigger] obstructing(w, candidates, shape)[k],
                shape,
            ),
    decreases candidates.len(),
{
    if candidates.len() > 0 {
        let rest = obstructing(w, candidates.drop_last(), shape);
        let all = obstructing(w, candidates, shape);
        lemma_obstructing_are_obstacles(w, candidates.drop_last(), shape);
        assert forall|k: int| 0 <= k < all.len() implies obstructs(w, #[trigger] all[k], shape) by {
            if k < rest.len() {
                assert(all[k] == rest[k]);
            }
        }
    }
}

/// Some target is the entity at position `i`.
pub open spec fn names(targets: Seq<Entity>, i: int) -> bool {
    exists|k: int| 0 <= k < targets.len() && (#[trigger] targets[k]).0 == i
}

/// Recording contacts adds contacts to the targets and changes nothing else.
pub proof fn lemma_record_hits_frame(
    w: Seq<ComponentsView>,
    targets: Seq<Entity>,
    entry: (Entity, CollisionDirection),
)
    ensures
        record_hits(w, targets, entry).len() == w.len(),
        forall|i: int|
            0 <= i < w.len() ==> same_but_hits(w[i], #[trigger] record_hits(w, targets, entry)[i]),
        forall|i: int|
            0 <= i < w.len() && !names(targets, i) ==> #[trigger] record_hits(w, targets, entry)[i]
                == w[i],
    decreases targets.len(),
{
    if targets.len() > 0 {
        let rest = targets.drop_last();
        let w1 = record_hits(w, rest, entry);
        let w2 = record_hits(w, targets, entry);
        lemma_record_hits_frame(w, rest, entry);
        assert forall|i: int| 0 <= i < w.len() implies same_but_hits(w[i], #[trigger] w2[i]) by {
            assert(same_but_hits(w[i], w1[i]));
            assert(same_but_hits(w1[i], w2[i]));
        }
        assert forall|i: int| 0 <= i < w.len() && !names(targets, i) implies #[trigger] w2[i]
            == w[i] by {
            assert(targets.last() == targets[targets.len() - 1]);
            assert(targets.last().0 != i);
            assert forall|k: int| 0 <= k < rest.len() implies (#[trigger] rest[k]).0 != i by {
                assert(rest[k] == targets[k]);
            }
        }
    }
}

/// Recording contacts on one record adds contacts and changes nothing else.
pub proof fn lemma_with_hits_frame(
    c: ComponentsView,
    targets: Seq<Entity>,
    direction: CollisionDirection,
)
    ensures
        same_but_hits(c, with_hits(c, targets, direction)),
    decreases targets.len(),
{
    if targets.len() > 0 {
        let before = with_hits(c, targets.drop_last(), direction);
        lemma_with_hits_frame(c, targets.drop_last(), direction);
        assert(same_but_hits(before, with_hit(before, (targets.last(), direction))));
    }
}

/// One axis step leaves the number of entities alone. Of the moved entity
/// it changes at most translation, velocity and contacts; of any other
/// entity at most the contacts, and those only if it is a static obstacle.
pub proof fn lemma_axis_step_frame(
    w: Seq<ComponentsView>,
    dt: Fixed,
    e: Entity,
    axis: Axis,
    candidates: Seq<Entity>,
)
    ensures
        axis_step(w, dt, e, axis, candidates).len() == w.len(),
        forall|i: int|
            0 <= i < w.len() ==> same_but_motion(
                w[i],
                #[trigger] axis_step(w, dt, e, axis, candidates)[i],
            ),
        forall|i: int|
            0 <= i < w.len() && i != e.0 ==> same_but_hits(
                w[i],
                #[trigger] axis_step(w, dt, e, axis, candidates)[i],
            ),
        forall|i: int|
            0 <= i < w.len() && i != e.0 && !is_static_obstacle(w[i]) ==> #[trigger] axis_step(
                w,
                dt,
                e,
                axis,
                candidates,
            )[i] == w[i],
{
    if e.0 < w.len() && is_dynamic_body(w[e.0 as int]) {
        let c = w[e.0 as int];
        let amount = displacement(c, axis, dt);
        if amount@ != 0 {
            let direction = CollisionDirection::along(axis, amount);
            let shape = displaced_bounds(c, axis, dt);
            let hit = blockers(w, dt, e, axis, candidates);
            if hit.len() > 0 {
                let entry = (e, direction.flip());
                let w2 = record_hits(w, hit, entry);
                let after = axis_step(w, dt, e, axis, candidates);
                lemma_record_hits_frame(w, hit, entry);
                lemma_obstructing_are_obstacles(w, candidates, shape);
                lemma_with_hits_frame(stopped(w2[e.0 as int], axis), hit, direction);
                assert forall|i: int|
                    0 <= i < w.len() && i != e.0 && !is_static_obstacle(w[i]) implies !names(
                    hit,
                    i,
                ) by {
                    if names(hit, i) {
                        let k = choose|k: int| 0 <= k < hit.len() && (#[trigger] hit[k]).0 == i;
                        assert(obstructs(w, hit[k], shape));
                    }
                }
                assert forall|i: int| 0 <= i < w.len() implies same_but_motion(
                    w[i],
                    #[trigger] after[i],
                ) by {
                    assert(same_but_hits(w[i], w2[i]));
                    if i == e.0 {
                        let s = stopped(w2[i], axis);
                        assert(same_but_hits(s, with_hits(s, hit, direction)));
                    }
                }
            }
        }
    }
}

/// Resolving one entity leaves the number of entities alone. Of that
/// entity it changes at most translation, velocity and contacts; of any
/// other entity at most the contacts, and those only if it is a static
/// obstacle.
pub proof fn lemma_resolve_entity_frame(w: Seq<ComponentsView>, dt: Fixed, e: Entity)
    ensures
        resolve_entity(w, dt, e).len() == w.len(),
        forall|i: int|
            0 <= i < w.len() ==> same_but_motion(w[i], #[trigger] resolve_entity(w, dt, e)[i]),
        forall|i: int|
            0 <= i < w.len() && i != e.0 ==> same_but_hits(
                w[i],
                #[trigger] resolve_entity(w, dt, e)[i],
            ),
        forall|i: int|
            0 <= i < w.len() && i != e.0 && !is_static_obstacle(w[i]) ==> #[trigger] resolve_entity(
                w,
                dt,
                e,
            )[i] == w[i],
{
    if e.0 < w.len() && is_dynamic_body(w[e.0 as int]) {
        let c = w[e.0 as int];
        let velocity = c.velocity.unwrap().0;
        if !velocity.is_zero() {
            let t = c.transform.unwrap();
            let moved = Transform { translation: t.translation.plus(velocity.scaled(dt)), ..t };
            let shape = PreppedCollisionShape::prepared(
                c.shape.unwrap(),
                moved.translation,
                moved.scale,
            );
            let candidates = obstructing(w, all_entities(w.len()), shape);
            if candidates.len() > 0 {
                let after_x = axis_step(w, dt, e, Axis::X, candidates);
                let after_z = axis_step(after_x, dt, e, Axis::Z, candidates);
                let after_y = axis_step(after_z, dt, e, Axis::Y, candidates);
                lemma_axis_step_frame(w, dt, e, Axis::X, candidates);
                lemma_axis_step_frame(after_x, dt, e, Axis::Z, candidates);
                lemma_axis_step_frame(after_z, dt, e, Axis::Y, candidates);
                assert forall|i: int| 0 <= i < w.len() implies same_but_motion(
                    w[i],
                    #[trigger] after_y[i],
                ) by {
                    assert(same_but_motion(w[i], after_x[i]));
                    assert(same_but_motion(after_x[i], after_z[i]));
                    assert(same_but_motion(after_z[i], after_y[i]));
                }
                assert forall|i: int| 0 <= i < w.len() && i != e.0 implies same_but_hits(
                    w[i],
                    #[trigger] after_y[i],
                ) by {
                    assert(same_but_hits(w[i], after_x[i]));
                    assert(same_but_hits(after_x[i], after_z[i]));
                    assert(same_but_hits(after_z[i], after_y[i]));
                }
                assert forall|i: int|
                    0 <= i < w.len() && i != e.0 && !is_static_obstacle(
                        w[i],
                    ) implies #[trigger] after_y[i] == w[i] by {
                    assert(after_x[i] == w[i]);
                    assert(after_z[i] == after_x[i]);
                    assert(after_y[i] == after_z[i]);
                }
            } else {
                assert(w[e.0 as int].hits is Some ==> extends(w[e.0 as int].hits, w[e.0 as int].hits));
            }
        }
    }
}

/// Resolving any number of entities leaves the number of entities alone.
/// It changes of each entity at most translation, velocity and contacts;
/// of an entity that is no dynamic body at most the contacts; and nothing
/// of an entity that is neither a dynamic body nor a static obstacle.
pub proof fn lemma_resolve_all_frame(w: Seq<ComponentsView>, dt: Fixed, n: nat)
    ensures
        resolve_all(w, dt, n).len() == w.len(),
        forall|i: int|
            0 <= i < w.len() ==> same_but_motion(w[i], #[trigger] resolve_all(w, dt, n)[i]),
        forall|i: int|
            0 <= i < w.len() && !is_dynamic_body(w[i]) ==> same_but_hits(
                w[i],
                #[trigger] resolve_all(w, dt, n)[i],
            ),
        forall|i: int|
            0 <= i < w.len() && !is_dynamic_body(w[i]) && !is_static_obstacle(w[i])
                ==> #[trigger] resolve_all(w, dt, n)[i] == w[i],
    decreases n,
{
    if n > 0 {
        let before = resolve_all(w, dt, (n - 1) as nat);
        let after = resolve_all(w, dt, n);
        lemma_resolve_all_frame(w, dt, (n - 1) as nat);
        lemma_resolve_entity_frame(before, dt, Entity((n - 1) as usize));
        assert forall|i: int| 0 <= i < w.len() implies same_but_motion(w[i], #[trigger] after[i]) by {
            assert(same_but_motion(w[i], before[i]));
            assert(same_but_motion(before[i], after[i]));
        }
        assert forall|i: int| 0 <= i < w.len() && !is_dynamic_body(w[i]) implies same_but_hits(
            w[i],
            #[trigger] after[i],
        ) by {
            assert(same_but_hits(w[i], before[i]));
            assert(same_but_motion(before[i], after[i]));
            assert(!is_dynamic_body(before[i]));
        }
        assert forall|i: int|
            0 <= i < w.len() && !is_dynamic_body(w[i]) && !is_static_obstacle(
                w[i],
            ) implies #[trigger] after[i] == w[i] by {
            assert(before[i] == w[i]);
        }
    } else {
        assert forall|i: int| 0 <= i < w.len() implies same_but_motion(w[i], #[trigger] w[i]) by {}
    }
}

/// A dynamic body whose velocity is zero is left exactly as it is by the
/// resolution of any number of entities: it does not move, and nothing is
/// added to its contacts.
pub proof fn lemma_still_body_untouched(w: Seq<ComponentsView>, dt: Fixed, n: nat, e: Entity)
    requires
        e.0 < w.len(),
        is_dynamic_body(w[e.0 as int]),
        w[e.0 as int].velocity.unwrap().0.is_zero(),
    ensures
        resolve_all(w, dt, n)[e.0 as int] == w[e.0 as int],
    decreases n,
{
    if n > 0 {
        let before = resolve_all(w, dt, (n - 1) as nat);
        lemma_still_body_untouched(w, dt, (n - 1) as nat, e);
        lemma_resolve_all_frame(w, dt, (n - 1) as nat);
        lemma_resolve_entity_frame(before, dt, Entity((n - 1) as usize));
    }
}

/// A blocked axis step zeroes the velocity along its axis, leaves the other
/// two components as they were, and does not move the entity.
pub proof fn lemma_blocked_axis_stops_that_axis_only(
    w: Seq<ComponentsView>,
    dt: Fixed,
    e: Entity,
    axis: Axis,
    candidates: Seq<Entity>,
)
    requires
        e.0 < w.len(),
        is_dynamic_body(w[e.0 as int]),
        displacement(w[e.0 as int], axis, dt)@ != 0,
        blockers(w, dt, e, axis, candidates).len() > 0,
    ensures
        ({
            let before = w[e.0 as int].velocity.unwrap().0;
            let after = axis_step(w, dt, e, axis, candidates)[e.0 as int];
            &&& after.velocity is Some
            &&& after.velocity.unwrap().0.component(axis)@ == 0
            &&& forall|other: Axis|
                other != axis ==> after.velocity.unwrap().0.component(other) == before.component(
                    other,
                )
            &&& after.transform == w[e.0 as int].transform
        }),
{
    let c = w[e.0 as int];
    let direction = CollisionDirection::along(axis, displacement(c, axis, dt));
    let hit = blockers(w, dt, e, axis, candidates);
    let w2 = record_hits(w, hit, (e, direction.flip()));
    lemma_record_hits_frame(w, hit, (e, direction.flip()));
    lemma_with_hits_frame(stopped(w2[e.0 as int], axis), hit, direction);
    assert(same_but_hits(w[e.0 as int], w2[e.0 as int]));
}

/// An axis step that nothing blocks moves the entity by its displacement
/// along the axis and leaves its velocity and its contacts as they were.
pub proof fn lemma_free_axis_keeps_velocity(
    w: Seq<ComponentsView>,
    dt: Fixed,
    e: Entity,
    axis: Axis,
    candidates: Seq<Entity>,
)
    requires
        e.0 < w.len(),
        is_dynamic_body(w[e.0 as int]),
        blockers(w, dt, e, axis, candidates).len() == 0,
    ensures
        ({
            let c = w[e.0 as int];
            let after = axis_step(w, dt, e, axis, candidates)[e.0 as int];
            &&& after.velocity == c.velocity
            &&& after.hits == c.hits
            &&& after.transform == Some(
                shifted(c.transform.unwrap(), axis, displacement(c, axis, dt)),
            )
        }),
{
    let c = w[e.0 as int];
    let amount = displacement(c, axis, dt);
    if amount@ == 0 {
        lemma_plus_zero(c.transform.unwrap().translation.component(axis), amount);
    }
}

/// Nothing obstructs exactly if no candidate does.
pub proof fn lemma_none_obstructing(
    w: Seq<ComponentsView>,
    candidates: Seq<Entity>,
    shape: PreppedCollisionShape,
)
    ensures
        obstructing(w, candidates, shape).len() == 0 <==> forall|k: int|
            0 <= k < candidates.len() ==> !obstructs(w, #[trigger] candidates[k], shape),
    decreases candidates.len(),
{
    if candidates.len() > 0 {
        let rest = candidates.drop_last();
        lemma_none_obstructing(w, rest, shape);
        if obstructing(w, candidates, shape).len() == 0 {
            assert forall|k: int| 0 <= k < candidates.len() implies !obstructs(
                w,
                #[trigger] candidates[k],
                shape,
            ) by {
                if k < rest.len() {
                    assert(rest[k] == candidates[k]);
                }
            }
        } else {
            if !obstructs(w, candidates.last(), shape) {
                let k = choose|k: int| 0 <= k < rest.len() && obstructs(w, #[trigger] rest[k], shape);
                assert(rest[k] == candidates[k]);
            }
        }
    }
}

/// An axis step moves a body only to a place where it overlaps none of the
/// candidates that are static obstacles.
pub proof fn lemma_committed_step_is_clear(
    w: Seq<ComponentsView>,
    dt: Fixed,
    e: Entity,
    axis: Axis,
    candidates: Seq<Entity>,
    k: int,
)
    requires
        e.0 < w.len(),
        is_dynamic_body(w[e.0 as int]),
        axis_step(w, dt, e, axis, candidates)[e.0 as int].transform != w[e.0 as int].transform,
        0 <= k < candidates.len(),
        candidates[k].0 < w.len(),
        is_static_obstacle(w[candidates[k].0 as int]),
    ensures
        axis_step(w, dt, e, axis, candidates)[e.0 as int].transform == Some(
            shifted(w[e.0 as int].transform.unwrap(), axis, displacement(w[e.0 as int], axis, dt)),
        ),
        !displaced_bounds(w[e.0 as int], axis, dt).overlaps(
            w[candidates[k].0 as int].prepped.unwrap(),
        ),
{
    let c = w[e.0 as int];
    let hit = blockers(w, dt, e, axis, candidates);
    if displacement(c, axis, dt)@ != 0 && hit.len() > 0 {
        lemma_blocked_axis_stops_that_axis_only(w, dt, e, axis, candidates);
    }
    lemma_none_obstructing(w, candidates, displaced_bounds(c, axis, dt));
}

/// The whole step is taken at once only to a place where the body overlaps
/// no static obstacle of the world.
pub proof fn lemma_whole_step_is_clear(w: Seq<ComponentsView>, dt: Fixed, e: Entity, s: Entity)
    requires
        e.0 < w.len(),
        is_dynamic_body(w[e.0 as int]),
        !w[e.0 as int].velocity.unwrap().0.is_zero(),
        obstructing(
            w,
            all_entities(w.len()),
            PreppedCollisionShape::prepared(
                w[e.0 as int].shape.unwrap(),
                w[e.0 as int].transform.unwrap().translation.plus(
                    w[e.0 as int].velocity.unwrap().0.scaled(dt),
                ),
                w[e.0 as int].transform.unwrap().scale,
            ),
        ).len() == 0,
        s.0 < w.len(),
        is_static_obstacle(w[s.0 as int]),
    ensures
        ({
            let t = w[e.0 as int].transform.unwrap();
            let target = t.translation.plus(w[e.0 as int].velocity.unwrap().0.scaled(dt));
            let after = resolve_entity(w, dt, e)[e.0 as int];
            &&& after.transform == Some(Transform { translation: target, ..t })
            &&& !PreppedCollisionShape::prepared(
                w[e.0 as int].shape.unwrap(),
                target,
                t.scale,
            ).overlaps(w[s.0 as int].prepped.unwrap())
        }),
{
    let t = w[e.0 as int].transform.unwrap();
    let target = t.translation.plus(w[e.0 as int].velocity.unwrap().0.scaled(dt));
    let shape = PreppedCollisionShape::prepared(w[e.0 as int].shape.unwrap(), target, t.scale);
    lemma_none_obstructing(w, all_entities(w.len()), shape);
    assert(all_entities(w.len())[s.0 as int] == s);
}

} // verus!
