use hecs_game::components::{
    CharacterCollisionBundle, CharacterMovementBundle, CollisionHits, DynamicCollisionType,
    Entity, Grounded, MovementAction, StaticCollisionType, Transform, Velocity,
};
use hecs_game::direction::CollisionDirection;
use hecs_game::fixed::Fixed;
use hecs_game::physics::{clear_collision_hits, prep_new_static, PhysicsHandler, StaticTracker};
use hecs_game::shape::{CollisionShape, PreppedCollisionShape, Range};
use hecs_game::vec3::Vec3;
use hecs_game::world::{Components, World};

fn boxed(w: i32, h: i32, d: i32) -> CollisionShape {
    CollisionShape::Box {
        half_width: Fixed::from_int(w),
        half_height: Fixed::from_int(h),
        half_depth: Fixed::from_int(d),
    }
}

fn at(x: i32, y: i32, z: i32) -> Transform {
    Transform::from_translation(Vec3::from_ints(x, y, z))
}

fn raw3(x: i64, y: i64, z: i64) -> Vec3 {
    Vec3::new(Fixed::from_raw(x), Fixed::from_raw(y), Fixed::from_raw(z))
}

fn span(min: i64, max: i64) -> Range {
    Range { min: Fixed::from_raw(min), max: Fixed::from_raw(max) }
}

fn floor() -> Components {
    Components::empty().with_transform(at(0, -5, 0)).with_static_shape(boxed(250, 5, 250))
}

fn character(place: Transform) -> Components {
    Components::empty()
        .with_transform(place)
        .with_movement(CharacterMovementBundle::default())
        .with_collision(CharacterCollisionBundle::from_shape(boxed(10, 20, 10)))
}

fn hits_of(world: &World, e: Entity) -> Vec<(Entity, CollisionDirection)> {
    let hits = world.get(e).hits.as_ref().unwrap();
    (0..hits.len()).map(|i| hits.get(i)).collect()
}

fn place_of(world: &World, e: Entity) -> Vec3 {
    world.get(e).transform.unwrap().translation
}

fn speed_of(world: &World, e: Entity) -> Vec3 {
    world.get(e).velocity.unwrap().0
}

fn tick(handler: &mut PhysicsHandler, world: &mut World, dt: Fixed) {
    assert!(handler.accepts(world));
    handler.tick_physics(world, dt);
}

fn dt16() -> Fixed {
    Fixed::from_raw(16)
}

#[test]
fn default_movement_bundle_values() {
    let bundle = CharacterMovementBundle::default();
    assert!(bundle.controller.movement_action_queue.is_empty());
    assert_eq!(bundle.velocity, Velocity(Vec3::zero()));
    assert_eq!(bundle.accel.0, Fixed::from_int(1300));
    assert_eq!(bundle.deaccel.0, Fixed::from_raw(900));
    assert_eq!(bundle.jump.0, Fixed::from_int(200));
    assert_eq!(bundle.gravity.0, Vec3::from_ints(0, -400, 0));
}

#[test]
fn default_collision_bundle_values() {
    let bundle = CharacterCollisionBundle::default();
    assert_eq!(bundle.hits.len(), 0);
    assert_eq!(bundle.dynamic, DynamicCollisionType);
    assert_eq!(bundle.shape, boxed(20, 20, 20));
    let shaped = CharacterCollisionBundle::from_shape(boxed(10, 20, 10));
    assert_eq!(shaped.hits.len(), 0);
    assert_eq!(shaped.shape, boxed(10, 20, 10));
}

#[test]
fn builders_set_exactly_their_components() {
    let c = character(at(1, 2, 3));
    assert_eq!(c.transform, Some(at(1, 2, 3)));
    assert!(c.controller.is_some() && c.velocity.is_some() && c.accel.is_some());
    assert!(c.deaccel.is_some() && c.jump.is_some() && c.gravity.is_some());
    assert!(c.hits.is_some() && c.dynamic_type.is_some() && c.shape.is_some());
    assert!(c.grounded.is_none() && c.prepped.is_none());
    assert!(c.static_type.is_none() && c.trigger_type.is_none());
    let f = floor();
    assert_eq!(f.static_type, Some(StaticCollisionType));
    assert_eq!(f.shape, Some(boxed(250, 5, 250)));
    assert!(f.hits.is_none() && f.dynamic_type.is_none() && f.velocity.is_none());
}

#[test]
fn spawn_hands_out_ascending_handles() {
    let mut world = World::new();
    assert_eq!(world.len(), 0);
    assert!(!world.contains(Entity(0)));
    let a = world.spawn(Components::empty());
    let b = world.spawn(floor());
    assert_eq!((a, b), (Entity(0), Entity(1)));
    assert_eq!(world.len(), 2);
    assert!(world.contains(b));
    assert!(!world.contains(Entity(2)));
    assert!(world.get(a).transform.is_none());
    world.set(a, character(at(9, 9, 9)));
    assert_eq!(world.get(a).transform, Some(at(9, 9, 9)));
    assert_eq!(world.get(b).static_type, Some(StaticCollisionType));
}

#[test]
fn new_static_bounds_are_cached_on_the_first_tick() {
    let mut world = World::new();
    let f = world.spawn(floor());
    let mut handler = PhysicsHandler::new();
    assert!(world.get(f).prepped.is_none());
    tick(&mut handler, &mut world, dt16());
    assert_eq!(
        world.get(f).prepped,
        Some(PreppedCollisionShape::Box((
            span(-250_000, 250_000),
            span(-10_000, 0),
            span(-250_000, 250_000)
        )))
    );
}

#[test]
fn cached_bounds_are_not_refreshed_when_the_static_moves() {
    let mut world = World::new();
    let f = world.spawn(floor());
    let mut handler = PhysicsHandler::default();
    tick(&mut handler, &mut world, dt16());
    let cached = world.get(f).prepped;
    world.entities[f.0].transform = Some(at(0, 500, 0));
    world.entities[f.0].shape = Some(boxed(1, 1, 1));
    tick(&mut handler, &mut world, dt16());
    assert_eq!(world.get(f).prepped, cached);
}

#[test]
fn static_tag_added_later_is_picked_up_on_the_next_tick() {
    let mut world = World::new();
    let f = world.spawn(Components::empty().with_transform(at(0, -5, 0)));
    let mut handler = PhysicsHandler::new();
    tick(&mut handler, &mut world, dt16());
    assert!(world.get(f).prepped.is_none());
    world.entities[f.0].static_type = Some(StaticCollisionType);
    world.entities[f.0].shape = Some(boxed(1, 1, 1));
    tick(&mut handler, &mut world, dt16());
    assert_eq!(
        world.get(f).prepped,
        Some(PreppedCollisionShape::Box((span(-1000, 1000), span(-6000, -4000), span(-1000, 1000))))
    );
}

#[test]
fn static_tag_removed_and_added_again_counts_as_new() {
    let mut world = World::new();
    let f = world.spawn(floor());
    let mut handler = PhysicsHandler::new();
    tick(&mut handler, &mut world, dt16());
    world.entities[f.0].static_type = None;
    world.entities[f.0].transform = Some(at(0, 95, 0));
    tick(&mut handler, &mut world, dt16());
    assert_eq!(world.get(f).prepped.unwrap(), PreppedCollisionShape::Box((
        span(-250_000, 250_000),
        span(-10_000, 0),
        span(-250_000, 250_000)
    )));
    world.entities[f.0].static_type = Some(StaticCollisionType);
    tick(&mut handler, &mut world, dt16());
    assert_eq!(world.get(f).prepped.unwrap(), PreppedCollisionShape::Box((
        span(-250_000, 250_000),
        span(90_000, 100_000),
        span(-250_000, 250_000)
    )));
}

#[test]
fn entity_spawned_after_a_tick_is_new_to_the_tracker() {
    let mut world = World::new();
    world.spawn(floor());
    let mut handler = PhysicsHandler::new();
    tick(&mut handler, &mut world, dt16());
    let late = world.spawn(
        Components::empty().with_transform(at(0, 0, 0)).with_static_shape(boxed(1, 1, 1)),
    );
    assert!(world.get(late).prepped.is_none());
    tick(&mut handler, &mut world, dt16());
    assert!(world.get(late).prepped.is_some());
}

#[test]
fn prep_new_static_with_its_own_tracker() {
    let mut world = World::new();
    let f = world.spawn(floor());
    let plain = world.spawn(character(at(0, 100, 0)));
    let mut tracker = StaticTracker::new();
    prep_new_static(&mut world, &mut tracker);
    assert!(world.get(f).prepped.is_some());
    assert!(world.get(plain).prepped.is_none());
    let cached = world.get(f).prepped;
    world.entities[f.0].transform = Some(at(7, 7, 7));
    prep_new_static(&mut world, &mut tracker);
    assert_eq!(world.get(f).prepped, cached);
}

#[test]
fn handler_rejects_a_new_static_without_transform_or_shape() {
    let handler = PhysicsHandler::new();
    let mut no_transform = World::new();
    no_transform.spawn(Components::empty().with_static_shape(boxed(1, 1, 1)));
    assert!(!handler.accepts(&no_transform));
    let mut no_shape = World::new();
    no_shape.spawn(Components {
        static_type: Some(StaticCollisionType),
        ..Components::empty().with_transform(at(0, 0, 0))
    });
    assert!(!handler.accepts(&no_shape));
}

#[test]
fn handler_rejects_a_dynamic_collider_without_transform() {
    let handler = PhysicsHandler::new();
    let mut world = World::new();
    let e = world.spawn(character(at(0, 0, 0)));
    assert!(handler.accepts(&world));
    world.entities[e.0].transform = None;
    assert!(!handler.accepts(&world));
    world.entities[e.0].shape = None;
    assert!(handler.accepts(&world));
}

#[test]
fn handler_accepts_a_known_static_that_lost_its_transform() {
    let mut handler = PhysicsHandler::new();
    let mut world = World::new();
    let f = world.spawn(floor());
    tick(&mut handler, &mut world, dt16());
    world.entities[f.0].transform = None;
    assert!(handler.accepts(&world));
    tick(&mut handler, &mut world, dt16());
    assert!(world.get(f).prepped.is_some());
    assert!(!PhysicsHandler::new().accepts(&world));
}

#[test]
fn handler_accepts_an_empty_world() {
    let mut handler = PhysicsHandler::new();
    let mut world = World::new();
    tick(&mut handler, &mut world, dt16());
    assert_eq!(world.len(), 0);
}

#[test]
fn clear_collision_hits_empties_every_list() {
    let mut world = World::new();
    let mut hits = CollisionHits::new();
    hits.push(Entity(3), CollisionDirection::PosX);
    hits.push(Entity(4), CollisionDirection::NegY);
    let a = world.spawn(Components { hits: Some(hits), ..Components::empty() });
    let b = world.spawn(Components::empty());
    clear_collision_hits(&mut world);
    assert_eq!(world.get(a).hits.as_ref().unwrap().len(), 0);
    assert!(world.get(b).hits.is_none());
}

#[test]
fn tick_forgets_contacts_of_the_previous_tick() {
    let mut world = World::new();
    world.spawn(floor());
    let mut stale = character(at(0, 100, 0));
    stale.hits.as_mut().unwrap().push(Entity(0), CollisionDirection::NegY);
    let e = world.spawn(stale);
    let mut handler = PhysicsHandler::new();
    tick(&mut handler, &mut world, dt16());
    assert!(hits_of(&world, e).is_empty());
    assert!(world.get(e).grounded.is_none());
}

#[test]
fn first_tick_of_a_fall() {
    let mut world = World::new();
    world.spawn(floor());
    let e = world.spawn(character(at(0, 100, 0)));
    let mut handler = PhysicsHandler::new();
    tick(&mut handler, &mut world, dt16());
    // v = -400 * 0.016 = -6.4; y = 100 - 6.4 * 0.016 cut to thousandths
    assert_eq!(speed_of(&world, e), raw3(0, -6400, 0));
    assert_eq!(place_of(&world, e), raw3(0, 99_898, 0));
    tick(&mut handler, &mut world, dt16());
    assert_eq!(speed_of(&world, e), raw3(0, -12_800, 0));
    assert_eq!(place_of(&world, e), raw3(0, 99_694, 0));
}

#[test]
fn tick_runs_intents_then_damping_then_gravity_then_motion() {
    let mut world = World::new();
    let e = world.spawn(character(at(0, 100, 0)));
    assert!(world.push_action(e, MovementAction::Move((Fixed::one(), Fixed::zero()))));
    let mut handler = PhysicsHandler::new();
    tick(&mut handler, &mut world, dt16());
    // 20.8 from the intent, times 0.9 = 18.72; gravity -6.4
    assert_eq!(speed_of(&world, e), raw3(18_720, -6400, 0));
    // 18.72 * 0.016 = 0.29952, -6.4 * 0.016 = -0.1024
    assert_eq!(place_of(&world, e), raw3(299, 99_898, 0));
    assert!(world.get(e).controller.as_ref().unwrap().movement_action_queue.is_empty());
}

#[test]
fn falling_box_settles_on_the_floor() {
    let mut world = World::new();
    let ground = world.spawn(floor());
    let e = world.spawn(character(at(0, 100, 0)));
    let mut handler = PhysicsHandler::new();
    for _ in 0..39 {
        tick(&mut handler, &mut world, dt16());
        assert!(world.get(e).grounded.is_none());
        assert!(hits_of(&world, e).is_empty());
    }
    assert_eq!(place_of(&world, e), raw3(0, 20_144, 0));
    assert_eq!(speed_of(&world, e), raw3(0, -249_600, 0));

    // the tick in which the floor is first reached
    tick(&mut handler, &mut world, dt16());
    assert_eq!(place_of(&world, e), raw3(0, 20_144, 0));
    assert_eq!(speed_of(&world, e), Vec3::zero());
    assert_eq!(world.get(e).grounded, Some(Grounded));
    assert_eq!(hits_of(&world, e), vec![(ground, CollisionDirection::NegY)]);

    for _ in 0..360 {
        tick(&mut handler, &mut world, dt16());
        let y = place_of(&world, e).y.raw;
        // bottom face above the floor and never further than where it first stopped
        assert!(y > 20_000 && y <= 20_144);
        assert_eq!(place_of(&world, e).x.raw, 0);
        assert_eq!(place_of(&world, e).z.raw, 0);
    }
    // at rest within one gravity step (0.1024) of the surface
    assert_eq!(place_of(&world, e), raw3(0, 20_042, 0));
    assert_eq!(speed_of(&world, e), Vec3::zero());
    let resting = place_of(&world, e);
    for _ in 0..10 {
        tick(&mut handler, &mut world, dt16());
        assert_eq!(place_of(&world, e), resting);
        assert_eq!(speed_of(&world, e), Vec3::zero());
    }
}

#[test]
fn grounded_follows_the_contact_of_each_tick() {
    let mut world = World::new();
    world.spawn(floor());
    let mut place = at(0, 0, 0);
    place.translation.y = Fixed::from_raw(20_042);
    let e = world.spawn(character(place));
    let mut handler = PhysicsHandler::new();
    // gravity pulls, the floor stops: grounded
    tick(&mut handler, &mut world, dt16());
    assert!(world.get(e).grounded.is_some());
    assert_eq!(speed_of(&world, e), Vec3::zero());
    // grounded, so no gravity, so no motion, so no contact: not grounded
    tick(&mut handler, &mut world, dt16());
    assert!(world.get(e).grounded.is_none());
    assert!(hits_of(&world, e).is_empty());
    // and again
    tick(&mut handler, &mut world, dt16());
    assert!(world.get(e).grounded.is_some());
    assert_eq!(place_of(&world, e).y, Fixed::from_raw(20_042));
}

#[test]
fn jump_waits_for_the_tick_after_landing() {
    let mut world = World::new();
    world.spawn(floor());
    let mut place = at(0, 0, 0);
    place.translation.y = Fixed::from_raw(20_042);
    let e = world.spawn(character(place));
    let mut handler = PhysicsHandler::new();
    // lands during this tick, but was not grounded when it began
    world.push_action(e, MovementAction::Jump);
    tick(&mut handler, &mut world, dt16());
    assert_eq!(speed_of(&world, e), Vec3::zero());
    assert!(world.get(e).grounded.is_some());
    assert_eq!(place_of(&world, e).y, Fixed::from_raw(20_042));
    // grounded at the start of this one
    world.push_action(e, MovementAction::Jump);
    tick(&mut handler, &mut world, dt16());
    assert_eq!(speed_of(&world, e), raw3(0, 200_000, 0));
    assert_eq!(place_of(&world, e).y, Fixed::from_raw(20_042 + 3200));
    assert!(world.get(e).grounded.is_none());
    // in the air: a further jump is dropped, gravity is back
    world.push_action(e, MovementAction::Jump);
    tick(&mut handler, &mut world, dt16());
    assert_eq!(speed_of(&world, e), raw3(0, 200_000 - 6400, 0));
}

#[test]
fn jump_on_an_entity_without_impulse_changes_nothing() {
    let mut world = World::new();
    let mut c = character(at(0, 100, 0));
    c.jump = None;
    c.gravity = None;
    c.grounded = Some(Grounded);
    let e = world.spawn(c);
    world.push_action(e, MovementAction::Jump);
    let mut handler = PhysicsHandler::new();
    tick(&mut handler, &mut world, dt16());
    assert_eq!(speed_of(&world, e), Vec3::zero());
    assert_eq!(place_of(&world, e), Vec3::from_ints(0, 100, 0));
    assert!(world.get(e).grounded.is_some());
    assert!(world.get(e).controller.as_ref().unwrap().movement_action_queue.is_empty());
}

#[test]
fn diagonal_run_into_a_corner_over_several_ticks() {
    let mut world = World::new();
    let post = world.spawn(
        Components { hits: Some(CollisionHits::new()), ..Components::empty() }
            .with_transform(at(0, 0, 0))
            .with_static_shape(boxed(10, 10, 10)),
    );
    let mut runner = Components::empty()
        .with_transform(at(-25, 0, -25))
        .with_movement(CharacterMovementBundle::default())
        .with_collision(CharacterCollisionBundle::from_shape(boxed(10, 10, 10)));
    runner.gravity = None;
    runner.velocity = Some(Velocity(Vec3::from_ints(1000, 0, 1000)));
    let e = world.spawn(runner);
    let mut handler = PhysicsHandler::new();

    // damped to 900, displacement 14.4 on both axes: x is free, z is stopped
    tick(&mut handler, &mut world, dt16());
    assert_eq!(speed_of(&world, e), raw3(900_000, 0, 0));
    assert_eq!(place_of(&world, e), raw3(-10_600, 0, -25_000));
    assert_eq!(hits_of(&world, e), vec![(post, CollisionDirection::PosZ)]);
    assert_eq!(hits_of(&world, post), vec![(e, CollisionDirection::NegZ)]);

    // nothing in the way any more: damped again, moved, contacts forgotten
    tick(&mut handler, &mut world, dt16());
    assert_eq!(speed_of(&world, e), raw3(810_000, 0, 0));
    assert_eq!(place_of(&world, e), raw3(-10_600 + 12_960, 0, -25_000));
    assert!(hits_of(&world, e).is_empty());
    assert!(hits_of(&world, post).is_empty());
}

#[test]
fn horizontal_velocity_is_damped_on_a_blocked_tick_too() {
    let mut world = World::new();
    world.spawn(floor());
    let mut place = at(0, 0, 0);
    place.translation.y = Fixed::from_raw(20_042);
    let mut c = character(place);
    c.velocity = Some(Velocity(Vec3::from_ints(100, 0, -100)));
    let e = world.spawn(c);
    let mut handler = PhysicsHandler::new();
    tick(&mut handler, &mut world, dt16());
    assert!(world.get(e).grounded.is_some());
    assert_eq!(speed_of(&world, e), raw3(90_000, 0, -90_000));
    assert_eq!(place_of(&world, e), raw3(1440, 20_042, -1440));
    tick(&mut handler, &mut world, dt16());
    assert_eq!(speed_of(&world, e), raw3(81_000, 0, -81_000));
}

#[test]
fn resting_body_without_gravity_is_left_alone_by_a_tick() {
    let mut world = World::new();
    world.spawn(floor());
    let mut c = character(at(0, 5, 0));
    c.gravity = None;
    let e = world.spawn(c);
    let mut handler = PhysicsHandler::new();
    for _ in 0..5 {
        tick(&mut handler, &mut world, dt16());
        assert_eq!(place_of(&world, e), Vec3::from_ints(0, 5, 0));
        assert_eq!(speed_of(&world, e), Vec3::zero());
        assert!(hits_of(&world, e).is_empty());
    }
}

#[test]
fn same_start_gives_same_end() {
    let build = || {
        let mut world = World::new();
        world.spawn(floor());
        let post = Components { hits: Some(CollisionHits::new()), ..Components::empty() }
            .with_transform(at(30, 10, 0))
            .with_static_shape(boxed(10, 10, 10));
        world.spawn(post);
        let e = world.spawn(character(at(0, 25, 0)));
        (world, e, PhysicsHandler::new())
    };
    let (mut a, ea, mut ha) = build();
    let (mut b, eb, mut hb) = build();
    for n in 0..120 {
        for (world, e) in [(&mut a, ea), (&mut b, eb)] {
            world.push_action(e, MovementAction::Move((Fixed::one(), Fixed::from_raw(-250))));
            if n % 7 == 0 {
                world.push_action(e, MovementAction::Jump);
            }
        }
        tick(&mut ha, &mut a, dt16());
        tick(&mut hb, &mut b, dt16());
        assert_eq!(world_digest(&a), world_digest(&b));
    }
    assert_ne!(place_of(&a, ea), Vec3::from_ints(0, 25, 0));
}

type Digest = (Option<Transform>, Option<Velocity>, bool, Vec<(Entity, CollisionDirection)>);

fn world_digest(world: &World) -> Vec<Digest> {
    (0..world.len())
        .map(|i| {
            let c = world.get(Entity(i));
            let hits = match &c.hits {
                Some(h) => (0..h.len()).map(|k| h.get(k)).collect(),
                None => Vec::new(),
            };
            (c.transform, c.velocity, c.grounded.is_some(), hits)
        })
        .collect()
}
