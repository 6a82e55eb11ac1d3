//! Collider shapes, their axis-aligned bounds in world space, and the
//! overlap test between two such bounds.

use crate::direction::Axis;
use crate::fixed::Fixed;
use crate::vec3::Vec3;
use vstd::prelude::*;

verus! {

/// A collider as its author declares it, in the entity's own frame.
#[derive(Clone, Copy, Debug, PartialEq, Eq)]
pub enum CollisionShape {
    Box { half_width: Fixed, half_height: Fixed, half_depth: Fixed },
}

/// A closed interval on one axis.
#[derive(Clone, Copy, Debug, PartialEq, Eq)]
pub struct Range {
    pub min: Fixed,
    pub max: Fixed,
}

/// A collider placed in the world: one closed interval per axis.
#[derive(Clone, Copy, Debug, PartialEq, Eq)]
pub enum PreppedCollisionShape {
    Box((Range, Range, Range)),
}

/// The interval of half-length `half * scale` around `center`.
pub open spec fn interval_around(center: Fixed, half: Fixed, scale: Fixed) -> Range {
    Range { min: center.minus(half.times(scale)), max: center.plus(half.times(scale)) }
}

/// Two closed intervals share at least one point.
pub open spec fn ranges_touch(a: Range, b: Range) -> bool {
    a.min@ <= b.max@ && a.max@ >= b.min@
}

/// Two boxes overlap when their intervals share a point on every axis.
pub open spec fn boxes_touch(a: (Range, Range, Range), b: (Range, Range, Range)) -> bool {
    ranges_touch(a.0, b.0) && ranges_touch(a.1, b.1) && ranges_touch(a.2, b.2)
}

impl CollisionShape {
    /// The half extents along x, y and z.
    pub open spec fn half_extents(self) -> Vec3 {
        match self {
            CollisionShape::Box { half_width, half_height, half_depth } => Vec3 {
                x: half_width,
                y: half_height,
                z: half_depth,
            },
        }
    }
}

impl PreppedCollisionShape {
    /// The three intervals, x first.
    pub open spec fn ranges(self) -> (Range, Range, Range) {
        match self {
            PreppedCollisionShape::Box(r) => r,
        }
    }

    /// The interval along `axis`.
    pub open spec fn range(self, axis: Axis) -> Range {
        match axis {
            Axis::X => self.ranges().0,
            Axis::Y => self.ranges().1,
            Axis::Z => self.ranges().2,
        }
    }

    /// The bounds of `shape` centred at `translation` and stretched by `scale`.
    pub open spec fn prepared(
        shape: CollisionShape,
        translation: Vec3,
        scale: Vec3,
    ) -> PreppedCollisionShape {
        let half = shape.half_extents();
        PreppedCollisionShape::Box(
            (
                interval_around(translation.x, half.x, scale.x),
                interval_around(translation.y, half.y, scale.y),
                interval_around(translation.z, half.z, scale.z),
            ),
        )
    }

    /// Whether the two placed colliders overlap; shared boundaries count.
    pub open spec fn overlaps(self, other: PreppedCollisionShape) -> bool {
        boxes_touch(self.ranges(), other.ranges())
    }

    /// Places `value` in the world at `translation`, stretched by `scale`.
    pub fn from_collision_shape(value: &CollisionShape, translation: Vec3, scale: Vec3) -> (r:
        PreppedCollisionShape)
        ensures
            r == PreppedCollisionShape::prepared(*value, translation, scale),
    {
        match value {
            CollisionShape::Box { half_width, half_height, half_depth } => {
                PreppedCollisionShape::Box(
                    (
                        Range {
                            min: translation.x.minus(half_width.times(scale.x)),
                            max: translation.x.plus(half_width.times(scale.x)),
                        },
                        Range {
                            min: translation.y.minus(half_height.times(scale.y)),
                            max: translation.y.plus(half_height.times(scale.y)),
                        },
                        Range {
                            min: translation.z.minus(half_depth.times(scale.z)),
                            max: translation.z.plus(half_depth.times(scale.z)),
                        },
                    ),
                )
            },
        }
    }

    /// Whether the two placed colliders overlap; shared boundaries count.
    pub fn check_collision(&self, other: &PreppedCollisionShape) -> (r: bool)
        ensures
            r == self.overlaps(*other),
    {
        match (self, other) {
            (PreppedCollisionShape::Box(a), PreppedCollisionShape::Box(b)) => aabb_vs_aabb(a, b),
        }
    }
}

/// Whether two boxes, each given as three intervals, overlap on every axis.
pub fn aabb_vs_aabb(a: &(Range, Range, Range), b: &(Range, Range, Range)) -> (r: bool)
    ensures
        r == boxes_touch(*a, *b),
{
    a.0.min.raw <= b.0.max.raw && a.0.max.raw >= b.0.min.raw && a.1.min.raw <= b.1.max.raw
        && a.1.max.raw >= b.1.min.raw && a.2.min.raw <= b.2.max.raw && a.2.max.raw
        >= b.2.min.raw
}

/// The overlap test does not depend on the order of its arguments.
pub proof fn lemma_overlap_symmetric(a: PreppedCollisionShape, b: PreppedCollisionShape)
    ensures
        a.overlaps(b) == b.overlaps(a),
{
}

/// Two non-empty intervals with no gap between them touch: the end of one
/// equal to the start of the other is already a contact.
pub proof fn lemma_zero_gap_touches(a: Range, b: Range)
    requires
        a.min@ <= a.max@,
        b.min@ <= b.max@,
        a.max@ == b.min@,
    ensures
        ranges_touch(a, b),
        ranges_touch(b, a),
{
}

/// Two colliders whose faces meet on one axis with no gap, and whose
/// intervals touch on the other two axes, overlap.
pub proof fn lemma_shared_face_overlaps(
    a: PreppedCollisionShape,
    b: PreppedCollisionShape,
    axis: Axis,
)
    requires
        a.range(axis).min@ <= a.range(axis).max@,
        b.range(axis).min@ <= b.range(axis).max@,
        a.range(axis).max@ == b.range(axis).min@,
        forall|other: Axis| other != axis ==> ranges_touch(a.range(other), b.range(other)),
    ensures
        a.overlaps(b),
        b.overlaps(a),
{
    assert(axis != Axis::X ==> ranges_touch(a.range(Axis::X), b.range(Axis::X)));
    assert(axis != Axis::Y ==> ranges_touch(a.range(Axis::Y), b.range(Axis::Y)));
    assert(axis != Axis::Z ==> ranges_touch(a.range(Axis::Z), b.range(Axis::Z)));
}

} // verus!
