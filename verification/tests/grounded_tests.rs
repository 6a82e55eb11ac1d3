use hecs_game::components::{CollisionHits, Entity, Gravity, Grounded};
use hecs_game::direction::CollisionDirection;
use hecs_game::grounded::update_grounded;
use hecs_game::vec3::Vec3;
use hecs_game::world::{Components, World};

fn faller(hits: &[CollisionDirection], grounded: bool) -> Components {
    let mut record = CollisionHits::new();
    for (i, d) in hits.iter().enumerate() {
        record.push(Entity(100 + i), *d);
    }
    Components {
        gravity: Some(Gravity(Vec3::from_ints(0, -400, 0))),
        hits: Some(record),
        grounded: if grounded { Some(Grounded) } else { None },
        ..Components::empty()
    }
}

#[test]
fn downward_contact_grounds() {
    let mut world = World::new();
    let e = world.spawn(faller(&[CollisionDirection::NegY], false));
    update_grounded(&mut world);
    assert!(world.get(e).grounded.is_some());
}

#[test]
fn downward_contact_among_others_grounds() {
    let mut world = World::new();
    let e = world.spawn(faller(
        &[CollisionDirection::PosX, CollisionDirection::NegZ, CollisionDirection::NegY],
        false,
    ));
    update_grounded(&mut world);
    assert!(world.get(e).grounded.is_some());
}

#[test]
fn grounded_stays_while_contact_lasts() {
    let mut world = World::new();
    let e = world.spawn(faller(&[CollisionDirection::NegY, CollisionDirection::NegY], true));
    update_grounded(&mut world);
    assert!(world.get(e).grounded.is_some());
}

#[test]
fn no_contact_ungrounds() {
    let mut world = World::new();
    let e = world.spawn(faller(&[], true));
    update_grounded(&mut world);
    assert!(world.get(e).grounded.is_none());
}

#[test]
fn other_directions_do_not_ground() {
    let mut world = World::new();
    let sideways = [
        CollisionDirection::PosX,
        CollisionDirection::NegX,
        CollisionDirection::PosZ,
        CollisionDirection::NegZ,
        CollisionDirection::PosY,
    ];
    let a = world.spawn(faller(&sideways, true));
    let b = world.spawn(faller(&sideways, false));
    update_grounded(&mut world);
    assert!(world.get(a).grounded.is_none());
    assert!(world.get(b).grounded.is_none());
}

#[test]
fn hitting_a_ceiling_does_not_ground() {
    let mut world = World::new();
    let e = world.spawn(faller(&[CollisionDirection::PosY], false));
    update_grounded(&mut world);
    assert!(world.get(e).grounded.is_none());
}

#[test]
fn entity_without_gravity_keeps_its_tag() {
    let mut world = World::new();
    let mut a = faller(&[], true);
    a.gravity = None;
    let mut b = faller(&[CollisionDirection::NegY], false);
    b.gravity = None;
    let a = world.spawn(a);
    let b = world.spawn(b);
    update_grounded(&mut world);
    assert!(world.get(a).grounded.is_some());
    assert!(world.get(b).grounded.is_none());
}

#[test]
fn gravity_entity_without_contact_list_is_not_grounded() {
    let mut world = World::new();
    let mut a = faller(&[], true);
    a.hits = None;
    let a = world.spawn(a);
    update_grounded(&mut world);
    assert!(world.get(a).grounded.is_none());
}

#[test]
fn update_grounded_keeps_the_contacts() {
    let mut world = World::new();
    let e = world.spawn(faller(&[CollisionDirection::NegY, CollisionDirection::PosX], false));
    update_grounded(&mut world);
    let hits = world.get(e).hits.as_ref().unwrap();
    assert_eq!(hits.len(), 2);
    assert_eq!(hits.get(0), (Entity(100), CollisionDirection::NegY));
    assert_eq!(hits.get(1), (Entity(101), CollisionDirection::PosX));
}
