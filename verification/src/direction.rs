//! Axes and the six signed contact directions.

use crate::fixed::Fixed;
use crate::vec3::Vec3;
use vstd::prelude::*;

verus! {

/// One of the three coordinate axes.
#[derive(Clone, Copy, Debug, PartialEq, Eq, Structural)]
pub enum Axis {
    X,
    Y,
    Z,
}

/// The signed axis along which a contact was made.
#[derive(Clone, Copy, Debug, PartialEq, Eq, Structural)]
pub enum CollisionDirection {
    PosX,
    NegX,
    PosY,
    NegY,
    PosZ,
    NegZ,
}

impl Vec3 {
    /// The component along `axis`.
    pub open spec fn spec_component(self, axis: Axis) -> Fixed {
        match axis {
            Axis::X => self.x,
            Axis::Y => self.y,
            Axis::Z => self.z,
        }
    }

    /// The vector with the component along `axis` replaced by `value`.
    pub open spec fn spec_with_component(self, axis: Axis, value: Fixed) -> Vec3 {
        match axis {
            Axis::X => Vec3 { x: value, ..self },
            Axis::Y => Vec3 { y: value, ..self },
            Axis::Z => Vec3 { z: value, ..self },
        }
    }

    /// The component along `axis`.
    #[verifier::when_used_as_spec(spec_component)]
    pub fn component(self, axis: Axis) -> (r: Fixed)
        ensures
            r == self.spec_component(axis),
    {
        match axis {
            Axis::X => self.x,
            Axis::Y => self.y,
            Axis::Z => self.z,
        }
    }

    /// The vector with the component along `axis` replaced by `value`.
    #[verifier::when_used_as_spec(spec_with_component)]
    pub fn with_component(self, axis: Axis, value: Fixed) -> (r: Vec3)
        ensures
            r == self.spec_with_component(axis, value),
    {
        match axis {
            Axis::X => Vec3 { x: value, y: self.y, z: self.z },
            Axis::Y => Vec3 { x: self.x, y: value, z: self.z },
            Axis::Z => Vec3 { x: self.x, y: self.y, z: value },
        }
    }
}

impl Axis {
    /// The mask that keeps the component along this axis and clears the
    /// other two: one unit along the axis, zero along the others.
    pub open spec fn mask(self) -> Vec3 {
        Vec3 { x: Fixed { raw: 0 }, y: Fixed { raw: 0 }, z: Fixed { raw: 0 } }.with_component(
            self,
            Fixed { raw: 1000 },
        )
    }

    /// The mask that keeps the component along this axis and clears the other two.
    pub fn get_scale(&self) -> (r: Vec3)
        ensures
            r == self.mask(),
    {
        match self {
            Axis::X => Vec3 { x: Fixed::one(), y: Fixed::zero(), z: Fixed::zero() },
            Axis::Y => Vec3 { x: Fixed::zero(), y: Fixed::one(), z: Fixed::zero() },
            Axis::Z => Vec3 { x: Fixed::zero(), y: Fixed::zero(), z: Fixed::one() },
        }
    }
}

impl CollisionDirection {
    /// The label for a displacement of `amount` along `axis`: positive unless
    /// the amount is below zero.
    pub open spec fn along(axis: Axis, amount: Fixed) -> CollisionDirection {
        match axis {
            Axis::X => if amount@ >= 0 {
                CollisionDirection::PosX
            } else {
                CollisionDirection::NegX
            },
            Axis::Y => if amount@ >= 0 {
                CollisionDirection::PosY
            } else {
                CollisionDirection::NegY
            },
            Axis::Z => if amount@ >= 0 {
                CollisionDirection::PosZ
            } else {
                CollisionDirection::NegZ
            },
        }
    }

    /// The same axis with the opposite sign.
    pub open spec fn spec_flip(self) -> CollisionDirection {
        match self {
            CollisionDirection::PosX => CollisionDirection::NegX,
            CollisionDirection::NegX => CollisionDirection::PosX,
            CollisionDirection::PosY => CollisionDirection::NegY,
            CollisionDirection::NegY => CollisionDirection::PosY,
            CollisionDirection::PosZ => CollisionDirection::NegZ,
            CollisionDirection::NegZ => CollisionDirection::PosZ,
        }
    }

    /// The axis the label lies on.
    pub open spec fn axis(self) -> Axis {
        match self {
            CollisionDirection::PosX | CollisionDirection::NegX => Axis::X,
            CollisionDirection::PosY | CollisionDirection::NegY => Axis::Y,
            CollisionDirection::PosZ | CollisionDirection::NegZ => Axis::Z,
        }
    }

    /// The label for the component of `direction` along `axis`.
    pub fn from_axis(axis: Axis, direction: &Vec3) -> (r: CollisionDirection)
        ensures
            r == CollisionDirection::along(axis, direction.component(axis)),
    {
        match axis {
            Axis::X => if direction.x.raw >= 0 {
                CollisionDirection::PosX
            } else {
                CollisionDirection::NegX
            },
            Axis::Y => if direction.y.raw >= 0 {
                CollisionDirection::PosY
            } else {
                CollisionDirection::NegY
            },
            Axis::Z => if direction.z.raw >= 0 {
                CollisionDirection::PosZ
            } else {
                CollisionDirection::NegZ
            },
        }
    }

    /// The same axis with the opposite sign.
    #[verifier::when_used_as_spec(spec_flip)]
    pub fn flip(self) -> (r: CollisionDirection)
        ensures
            r == self.spec_flip(),
    {
        match self {
            CollisionDirection::PosX => CollisionDirection::NegX,
            CollisionDirection::NegX => CollisionDirection::PosX,
            CollisionDirection::PosY => CollisionDirection::NegY,
            CollisionDirection::NegY => CollisionDirection::PosY,
            CollisionDirection::PosZ => CollisionDirection::NegZ,
            CollisionDirection::NegZ => CollisionDirection::PosZ,
        }
    }
}

/// Flipping twice gives the label back, flipping once never does, and a flip
/// stays on its axis.
pub proof fn lemma_flip_involution(d: CollisionDirection)
    ensures
        d.flip().flip() == d,
        d.flip() != d,
        d.flip().axis() == d.axis(),
{
}

} // verus!
