//! Properties of a whole tick, proved from the definitions of its stages.

use crate::components::Entity;
use crate::fixed::{lemma_times_unit, Fixed};
use crate::grounded::{reground_all, regrounded, rests_on_ground};
use crate::movement::{
    damp_all, damped, lemma_no_jump_without_ground_and_impulse, pulled, steer_all, steered,
    without_actions,
};
use crate::physics::{
    clear_all_hits, integrated, newly_static, prep_all, prepped_if_new, ticked, track,
    was_static, well_assembled, without_hits, PhysicsHandler,
};
use crate::resolve::{
    is_dynamic_body, lemma_resolve_all_frame, lemma_still_body_untouched, only_translated,
    resolve_all, same_but_hits, same_but_motion,
};
use crate::shape::PreppedCollisionShape;
use crate::world::{ComponentsView, World};
use vstd::prelude::*;

verus! {

/// The record of `i` after the integration stages, stage by stage.
proof fn lemma_integrated_at(w: Seq<ComponentsView>, seen: Seq<bool>, dt: Fixed, i: int)
    requires
        0 <= i < w.len(),
    ensures
        integrated(w, seen, dt).len() == w.len(),
        integrated(w, seen, dt)[i] == pulled(
            damped(steered(without_hits(prepped_if_new(w[i], was_static(seen, i))), dt)),
            dt,
        ),
{
    let a = prep_all(w, seen);
    let b = clear_all_hits(a);
    let c = steer_all(b, dt);
    let d = damp_all(c);
    assert(a[i] == prepped_if_new(w[i], was_static(seen, i)));
    assert(b[i] == without_hits(a[i]));
    assert(c[i] == steered(b[i], dt));
    assert(d[i] == damped(c[i]));
}

/// The record of `i` after a whole tick, in terms of its record after
/// collision resolution.
proof fn lemma_ticked_at(w: Seq<ComponentsView>, seen: Seq<bool>, dt: Fixed, i: int)
    requires
        0 <= i < w.len(),
    ensures
        ticked(w, seen, dt).len() == w.len(),
        ticked(w, seen, dt)[i] == without_actions(
            regrounded(
                resolve_all(integrated(w, seen, dt), dt, integrated(w, seen, dt).len())[i],
            ),
        ),
{
    let m = integrated(w, seen, dt);
    lemma_integrated_at(w, seen, dt, i);
    lemma_resolve_all_frame(m, dt, m.len());
    let r = resolve_all(m, dt, m.len());
    let g = reground_all(r);
    assert(g[i] == regrounded(r[i]));
}

/// A tick neither adds nor removes entities, and the tracker afterwards
/// remembers one flag per entity.
pub proof fn lemma_tick_keeps_entities(w: Seq<ComponentsView>, seen: Seq<bool>, dt: Fixed)
    ensures
        ticked(w, seen, dt).len() == w.len(),
        track(w).len() == w.len(),
{
    let m = integrated(w, seen, dt);
    lemma_resolve_all_frame(m, dt, m.len());
}

/// A tick is a function of the state it starts from: two worlds with the
/// same content, ticked by handlers that remember the same, end with the
/// same content, and the handlers remember the same afterwards.
pub proof fn lemma_tick_is_deterministic(
    first: World,
    second: World,
    first_handler: PhysicsHandler,
    second_handler: PhysicsHandler,
    dt: Fixed,
)
    requires
        first@ == second@,
        first_handler@ == second_handler@,
    ensures
        ticked(first@, first_handler@, dt) == ticked(second@, second_handler@, dt),
        track(first@) == track(second@),
{
}

/// A dynamic body that leaves the integration stages with zero velocity is
/// not moved by the tick, and ends the tick without contacts.
pub proof fn lemma_tick_keeps_still_body(
    w: Seq<ComponentsView>,
    seen: Seq<bool>,
    dt: Fixed,
    e: Entity,
)
    requires
        e.0 < w.len(),
        is_dynamic_body(integrated(w, seen, dt)[e.0 as int]),
        integrated(w, seen, dt)[e.0 as int].velocity.unwrap().0.is_zero(),
    ensures
        ticked(w, seen, dt)[e.0 as int].transform == w[e.0 as int].transform,
        ticked(w, seen, dt)[e.0 as int].hits == without_hits(w[e.0 as int]).hits,
        w[e.0 as int].hits is None || w[e.0 as int].hits.unwrap().len() == 0 ==> ticked(
            w,
            seen,
            dt,
        )[e.0 as int].hits == w[e.0 as int].hits,
{
    let i = e.0 as int;
    let m = integrated(w, seen, dt);
    lemma_integrated_at(w, seen, dt, i);
    lemma_ticked_at(w, seen, dt, i);
    lemma_still_body_untouched(m, dt, m.len(), e);
    if w[i].hits is Some && w[i].hits.unwrap().len() == 0 {
        assert(w[i].hits.unwrap() =~= Seq::empty());
    }
}

/// A dynamic body that starts a tick with zero velocity, nothing queued and
/// no gravity acting on it is not moved by the tick, and ends it without
/// contacts.
pub proof fn lemma_tick_keeps_resting_body(
    w: Seq<ComponentsView>,
    seen: Seq<bool>,
    dt: Fixed,
    e: Entity,
)
    requires
        e.0 < w.len(),
        is_dynamic_body(w[e.0 as int]),
        w[e.0 as int].velocity.unwrap().0.is_zero(),
        w[e.0 as int].controller is None || w[e.0 as int].controller.unwrap().len() == 0,
        w[e.0 as int].gravity is None || w[e.0 as int].grounded is Some,
    ensures
        ticked(w, seen, dt)[e.0 as int].transform == w[e.0 as int].transform,
        ticked(w, seen, dt)[e.0 as int].hits == without_hits(w[e.0 as int]).hits,
{
    let i = e.0 as int;
    let c = w[i];
    lemma_integrated_at(w, seen, dt, i);
    let b = without_hits(prepped_if_new(c, was_static(seen, i)));
    let s = steered(b, dt);
    assert(s.velocity == c.velocity);
    if s.deaccel is Some {
        let v = s.velocity.unwrap().0;
        lemma_times_unit(v.x, s.deaccel.unwrap().0);
        lemma_times_unit(v.z, s.deaccel.unwrap().0);
    }
    lemma_tick_keeps_still_body(w, seen, dt, e);
}

/// The jump of a tick goes by the grounded tag that the entity carries when
/// the tick starts: without that tag, or without an impulse, the intents of
/// the tick leave the vertical velocity as it was.
pub proof fn lemma_tick_jump_goes_by_grounded_at_start(
    w: Seq<ComponentsView>,
    seen: Seq<bool>,
    dt: Fixed,
    i: int,
)
    requires
        0 <= i < w.len(),
        w[i].velocity is Some,
        w[i].grounded is None || w[i].jump is None,
    ensures
        ({
            let after = steer_all(clear_all_hits(prep_all(w, seen)), dt)[i];
            &&& after.velocity is Some
            &&& after.velocity.unwrap().0.y == w[i].velocity.unwrap().0.y
        }),
{
    let a = prep_all(w, seen);
    let b = clear_all_hits(a);
    assert(a[i] == prepped_if_new(w[i], was_static(seen, i)));
    assert(b[i] == without_hits(a[i]));
    if b[i].controller is Some && b[i].accel is Some {
        lemma_no_jump_without_ground_and_impulse(
            b[i].velocity.unwrap().0,
            b[i].controller.unwrap(),
            b[i].accel.unwrap().0,
            b[i].jump,
            b[i].grounded is Some,
            dt,
        );
    }
}

/// After a tick no entity has an intent queued, and exactly the entities
/// that had a controller still have one.
pub proof fn lemma_tick_drains_queues(
    w: Seq<ComponentsView>,
    seen: Seq<bool>,
    dt: Fixed,
    i: int,
)
    requires
        0 <= i < w.len(),
    ensures
        ticked(w, seen, dt)[i].controller is Some ==> ticked(
            w,
            seen,
            dt,
        )[i].controller.unwrap().len() == 0,
        ticked(w, seen, dt)[i].controller is Some <==> w[i].controller is Some,
{
    lemma_integrated_at(w, seen, dt, i);
    lemma_ticked_at(w, seen, dt, i);
    let m = integrated(w, seen, dt);
    lemma_resolve_all_frame(m, dt, m.len());
    assert(same_but_motion(m[i], resolve_all(m, dt, m.len())[i]));
}

/// The contacts after a tick are those of that tick alone: whatever the
/// contact lists held before makes no difference to the outcome.
pub proof fn lemma_tick_contacts_are_fresh(w: Seq<ComponentsView>, seen: Seq<bool>, dt: Fixed)
    ensures
        ticked(w, seen, dt) == ticked(clear_all_hits(w), seen, dt),
{
    let cleared = clear_all_hits(w);
    let a = clear_all_hits(prep_all(w, seen));
    let b = clear_all_hits(prep_all(cleared, seen));
    assert forall|i: int| 0 <= i < a.len() implies a[i] == b[i] by {
        assert(cleared[i] == without_hits(w[i]));
        assert(prep_all(w, seen)[i] == prepped_if_new(w[i], was_static(seen, i)));
        assert(prep_all(cleared, seen)[i] == prepped_if_new(cleared[i], was_static(seen, i)));
        if w[i].hits is Some {
            assert(a[i].hits.unwrap() =~= b[i].hits.unwrap());
        }
    }
    assert(a =~= b);
}

/// After a tick an entity with gravity is grounded exactly if the contacts
/// of that tick hold one made while travelling downward; an entity without
/// gravity keeps the tag it had.
pub proof fn lemma_tick_grounded_reflects_contacts(
    w: Seq<ComponentsView>,
    seen: Seq<bool>,
    dt: Fixed,
    i: int,
)
    requires
        0 <= i < w.len(),
    ensures
        w[i].gravity is Some ==> (ticked(w, seen, dt)[i].grounded is Some <==> rests_on_ground(
            ticked(w, seen, dt)[i],
        )),
        w[i].gravity is None ==> ticked(w, seen, dt)[i].grounded == w[i].grounded,
{
    lemma_integrated_at(w, seen, dt, i);
    lemma_ticked_at(w, seen, dt, i);
    let m = integrated(w, seen, dt);
    lemma_resolve_all_frame(m, dt, m.len());
    assert(same_but_motion(m[i], resolve_all(m, dt, m.len())[i]));
}

/// Bounds are cached once: a tick computes them for an entity that became
/// static since the last tick, from its transform and shape as they are
/// then, and leaves the bounds of every other entity as they are.
pub proof fn lemma_tick_caches_bounds_once(
    w: Seq<ComponentsView>,
    seen: Seq<bool>,
    dt: Fixed,
    i: int,
)
    requires
        0 <= i < w.len(),
        well_assembled(w, seen),
    ensures
        newly_static(w[i], was_static(seen, i)) ==> ticked(w, seen, dt)[i].prepped == Some(
            PreppedCollisionShape::prepared(
                w[i].shape.unwrap(),
                w[i].transform.unwrap().translation,
                w[i].transform.unwrap().scale,
            ),
        ),
        !newly_static(w[i], was_static(seen, i)) ==> ticked(w, seen, dt)[i].prepped
            == w[i].prepped,
        was_static(track(w), i) == (w[i].static_type is Some),
{
    lemma_integrated_at(w, seen, dt, i);
    lemma_ticked_at(w, seen, dt, i);
    let m = integrated(w, seen, dt);
    lemma_resolve_all_frame(m, dt, m.len());
    assert(same_but_motion(m[i], resolve_all(m, dt, m.len())[i]));
}

/// What a tick leaves alone: the tags, the shape and the tuning of every
/// entity, the rotation and the scale of every transform, and the whole
/// transform of every entity that is not a dynamic body.
pub proof fn lemma_tick_moves_dynamic_bodies_only(
    w: Seq<ComponentsView>,
    seen: Seq<bool>,
    dt: Fixed,
    i: int,
)
    requires
        0 <= i < w.len(),
    ensures
        ({
            let before = w[i];
            let after = ticked(w, seen, dt)[i];
            &&& after.static_type == before.static_type
            &&& after.dynamic_type == before.dynamic_type
            &&& after.trigger_type == before.trigger_type
            &&& after.shape == before.shape
            &&& after.accel == before.accel
            &&& after.deaccel == before.deaccel
            &&& after.jump == before.jump
            &&& after.gravity == before.gravity
            &&& only_translated(before.transform, after.transform)
            &&& !is_dynamic_body(before) ==> after.transform == before.transform
        }),
{
    lemma_integrated_at(w, seen, dt, i);
    lemma_ticked_at(w, seen, dt, i);
    let m = integrated(w, seen, dt);
    lemma_resolve_all_frame(m, dt, m.len());
    let r = resolve_all(m, dt, m.len());
    assert(same_but_motion(m[i], r[i]));
    if !is_dynamic_body(w[i]) {
        assert(!is_dynamic_body(m[i]));
        assert(same_but_hits(m[i], r[i]));
    }
}

} // verus!
