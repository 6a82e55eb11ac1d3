//! Groundedness: whether an entity came to rest on a surface below it
//! during the current tick.

use crate::components::{Entity, Grounded};
use crate::direction::CollisionDirection;
use crate::world::{Components, ComponentsView, World};
use vstd::prelude::*;

verus! {

/// The label of a contact made while travelling downward.
pub open spec fn ground_contact() -> CollisionDirection {
    CollisionDirection::NegY
}

/// Some contact of the record was made while travelling downward.
pub open spec fn has_ground_hit(hits: Seq<(Entity, CollisionDirection)>) -> bool {
    exists|k: int| 0 <= k < hits.len() && (#[trigger] hits[k]).1 == ground_contact()
}

/// Whether the record shows the entity resting on a surface below it.
pub open spec fn rests_on_ground(c: ComponentsView) -> bool {
    c.hits is Some && has_ground_hit(c.hits.unwrap())
}

/// The record with its grounded tag brought up to date: an entity with
/// gravity is grounded exactly if it rests on the ground; any other entity
/// keeps the tag it has.
pub open spec fn regrounded(c: ComponentsView) -> ComponentsView {
    if c.gravity is Some {
        ComponentsView {
            grounded: if rests_on_ground(c) {
                Some(Grounded)
            } else {
                None
            },
            ..c
        }
    } else {
        c
    }
}

/// Every record regrounded.
pub open spec fn reground_all(w: Seq<ComponentsView>) -> Seq<ComponentsView> {
    w.map_values(|c: ComponentsView| regrounded(c))
}

fn resting(c: &Components) -> (r: bool)
    ensures
        r == rests_on_ground(c@),
{
    match &c.hits {
        Some(hits) => {
            let mut k: usize = 0;
            while k < hits.len()
                invariant
                    k <= hits@.len(),
                    c@.hits == Some(hits@),
                    forall|j: int| 0 <= j < k ==> (#[trigger] hits@[j]).1 != ground_contact(),
                decreases hits@.len() - k,
            {
                let (_, direction) = hits.get(k);
                if direction == CollisionDirection::NegY {
                    assert(hits@[k as int].1 == ground_contact());
                    return true;
                }
                k += 1;
            }
            false
        },
        None => false,
    }
}

fn reground(c: &mut Components)
    ensures
        final(c)@ == regrounded(old(c)@),
{
    if c.gravity.is_some() {
        if resting(c) {
            c.grounded = Some(Grounded);
        } else {
            c.grounded = None;
        }
    }
}

/// Brings the grounded tag of every entity with gravity up to date with the
/// contacts of the current tick.
pub fn update_grounded(world: &mut World)
    ensures
        final(world)@ == reground_all(old(world)@),
{
    let n = world.entities.len();
    let mut i: usize = 0;
    while i < n
        invariant
            i <= n,
            n == world.entities.len(),
            n == old(world)@.len(),
            forall|j: int| 0 <= j < i ==> world@[j] == regrounded(#[trigger] old(world)@[j]),
            forall|j: int| i <= j < n ==> world@[j] == #[trigger] old(world)@[j],
        decreases n - i,
    {
        reground(&mut world.entities[i]);
        i += 1;
    }
    assert(world@ =~= reground_all(old(world)@));
}

} // verus!
