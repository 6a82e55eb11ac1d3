//! Three-component vectors of fixed-point scalars.

use crate::fixed::Fixed;
use vstd::prelude::*;

verus! {

/// A vector with one scalar per axis.
#[derive(Clone, Copy, Debug, PartialEq, Eq, Structural)]
pub struct Vec3 {
    pub x: Fixed,
    pub y: Fixed,
    pub z: Fixed,
}

/// A rotation, carried through the simulation untouched.
#[derive(Clone, Copy, Debug, PartialEq, Eq, Structural)]
pub struct Quat {
    pub x: Fixed,
    pub y: Fixed,
    pub z: Fixed,
    pub w: Fixed,
}

impl Vec3 {
    /// Whether all three components are zero.
    pub open spec fn spec_is_zero(self) -> bool {
        self.x@ == 0 && self.y@ == 0 && self.z@ == 0
    }

    /// Component-wise saturating sum.
    pub open spec fn spec_plus(self, rhs: Vec3) -> Vec3 {
        Vec3 { x: self.x.plus(rhs.x), y: self.y.plus(rhs.y), z: self.z.plus(rhs.z) }
    }

    /// Component-wise saturating difference.
    pub open spec fn spec_minus(self, rhs: Vec3) -> Vec3 {
        Vec3 { x: self.x.minus(rhs.x), y: self.y.minus(rhs.y), z: self.z.minus(rhs.z) }
    }

    /// Component-wise product.
    pub open spec fn spec_times(self, rhs: Vec3) -> Vec3 {
        Vec3 { x: self.x.times(rhs.x), y: self.y.times(rhs.y), z: self.z.times(rhs.z) }
    }

    /// Every component multiplied by the same factor.
    pub open spec fn spec_scaled(self, factor: Fixed) -> Vec3 {
        Vec3 { x: self.x.times(factor), y: self.y.times(factor), z: self.z.times(factor) }
    }

    /// The vector with the given components.
    pub fn new(x: Fixed, y: Fixed, z: Fixed) -> (r: Vec3)
        ensures
            r == (Vec3 { x, y, z }),
    {
        Vec3 { x, y, z }
    }

    /// The zero vector.
    pub fn zero() -> (r: Vec3)
        ensures
            r.is_zero(),
    {
        Vec3 { x: Fixed::zero(), y: Fixed::zero(), z: Fixed::zero() }
    }

    /// The vector with the given whole-unit components.
    pub fn from_ints(x: i32, y: i32, z: i32) -> (r: Vec3)
        ensures
            r.x@ == x * crate::fixed::SCALE,
            r.y@ == y * crate::fixed::SCALE,
            r.z@ == z * crate::fixed::SCALE,
    {
        Vec3 { x: Fixed::from_int(x), y: Fixed::from_int(y), z: Fixed::from_int(z) }
    }

    /// Whether all three components are zero.
    #[verifier::when_used_as_spec(spec_is_zero)]
    pub fn is_zero(self) -> (r: bool)
        ensures
            r == self.spec_is_zero(),
    {
        self.x.is_zero() && self.y.is_zero() && self.z.is_zero()
    }

    /// Component-wise saturating sum.
    #[verifier::when_used_as_spec(spec_plus)]
    pub fn plus(self, rhs: Vec3) -> (r: Vec3)
        ensures
            r == self.spec_plus(rhs),
    {
        Vec3 { x: self.x.plus(rhs.x), y: self.y.plus(rhs.y), z: self.z.plus(rhs.z) }
    }

    /// Component-wise saturating difference.
    #[verifier::when_used_as_spec(spec_minus)]
    pub fn minus(self, rhs: Vec3) -> (r: Vec3)
        ensures
            r == self.spec_minus(rhs),
    {
        Vec3 { x: self.x.minus(rhs.x), y: self.y.minus(rhs.y), z: self.z.minus(rhs.z) }
    }

    /// Component-wise product.
    #[verifier::when_used_as_spec(spec_times)]
    pub fn times(self, rhs: Vec3) -> (r: Vec3)
        ensures
            r == self.spec_times(rhs),
    {
        Vec3 { x: self.x.times(rhs.x), y: self.y.times(rhs.y), z: self.z.times(rhs.z) }
    }

    /// Every component multiplied by the same factor.
    #[verifier::when_used_as_spec(spec_scaled)]
    pub fn scaled(self, factor: Fixed) -> (r: Vec3)
        ensures
            r == self.spec_scaled(factor),
    {
        Vec3 { x: self.x.times(factor), y: self.y.times(factor), z: self.z.times(factor) }
    }
}

impl Quat {
    /// The rotation that turns nothing.
    pub fn identity() -> (r: Quat)
        ensures
            r.x@ == 0,
            r.y@ == 0,
            r.z@ == 0,
            r.w@ == crate::fixed::SCALE,
    {
        Quat { x: Fixed::zero(), y: Fixed::zero(), z: Fixed::zero(), w: Fixed::one() }
    }
}

} // verus!
