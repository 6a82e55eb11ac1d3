use hecs_game::direction::{Axis, CollisionDirection};
use hecs_game::fixed::Fixed;
use hecs_game::vec3::Vec3;

#[test]
fn flip_swaps_the_sign_on_each_axis() {
    assert_eq!(CollisionDirection::PosX.flip(), CollisionDirection::NegX);
    assert_eq!(CollisionDirection::NegX.flip(), CollisionDirection::PosX);
    assert_eq!(CollisionDirection::PosY.flip(), CollisionDirection::NegY);
    assert_eq!(CollisionDirection::NegY.flip(), CollisionDirection::PosY);
    assert_eq!(CollisionDirection::PosZ.flip(), CollisionDirection::NegZ);
    assert_eq!(CollisionDirection::NegZ.flip(), CollisionDirection::PosZ);
}

#[test]
fn flip_twice_is_identity() {
    let all = [
        CollisionDirection::PosX,
        CollisionDirection::NegX,
        CollisionDirection::PosY,
        CollisionDirection::NegY,
        CollisionDirection::PosZ,
        CollisionDirection::NegZ,
    ];
    for d in all {
        assert_eq!(d.flip().flip(), d);
        assert_ne!(d.flip(), d);
    }
}

#[test]
fn from_axis_reads_the_sign_of_that_axis_only() {
    let v = Vec3::new(Fixed::from_raw(5), Fixed::from_raw(-5), Fixed::from_raw(0));
    assert_eq!(CollisionDirection::from_axis(Axis::X, &v), CollisionDirection::PosX);
    assert_eq!(CollisionDirection::from_axis(Axis::Y, &v), CollisionDirection::NegY);
    assert_eq!(CollisionDirection::from_axis(Axis::Z, &v), CollisionDirection::PosZ);
    let w = Vec3::new(Fixed::from_raw(-1), Fixed::from_raw(1), Fixed::from_raw(-1));
    assert_eq!(CollisionDirection::from_axis(Axis::X, &w), CollisionDirection::NegX);
    assert_eq!(CollisionDirection::from_axis(Axis::Y, &w), CollisionDirection::PosY);
    assert_eq!(CollisionDirection::from_axis(Axis::Z, &w), CollisionDirection::NegZ);
}

#[test]
fn from_axis_counts_zero_as_positive() {
    let z = Vec3::zero();
    assert_eq!(CollisionDirection::from_axis(Axis::X, &z), CollisionDirection::PosX);
    assert_eq!(CollisionDirection::from_axis(Axis::Y, &z), CollisionDirection::PosY);
    assert_eq!(CollisionDirection::from_axis(Axis::Z, &z), CollisionDirection::PosZ);
}

#[test]
fn get_scale_is_the_unit_mask_of_the_axis() {
    assert_eq!(Axis::X.get_scale(), Vec3::from_ints(1, 0, 0));
    assert_eq!(Axis::Y.get_scale(), Vec3::from_ints(0, 1, 0));
    assert_eq!(Axis::Z.get_scale(), Vec3::from_ints(0, 0, 1));
}

#[test]
fn component_and_with_component_address_one_axis() {
    let v = Vec3::from_ints(1, 2, 3);
    assert_eq!(v.component(Axis::X), Fixed::from_int(1));
    assert_eq!(v.component(Axis::Y), Fixed::from_int(2));
    assert_eq!(v.component(Axis::Z), Fixed::from_int(3));
    assert_eq!(v.with_component(Axis::X, Fixed::zero()), Vec3::from_ints(0, 2, 3));
    assert_eq!(v.with_component(Axis::Y, Fixed::zero()), Vec3::from_ints(1, 0, 3));
    assert_eq!(v.with_component(Axis::Z, Fixed::zero()), Vec3::from_ints(1, 2, 0));
}
