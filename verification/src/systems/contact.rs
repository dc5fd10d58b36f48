//! What one detection pass works on and what it reports.

use crate::components::BodyType;
use crate::scalar::Scalar;
use vstd::prelude::*;

verus! {

/// Squared centre distance, in squared raw units, at or below which two circles
/// count as coincident and yield no contact.
pub const MIN_DISTANCE_SQUARED: i128 = 10_000_000;

/// Penetration, in raw units, below which a contact is ignored by resolution.
pub const MIN_PENETRATION: i64 = 10;

/// Penetration, in raw units, that positional correction leaves in place.
pub const SLOP: i64 = 100;

/// Share of the remaining penetration that positional correction removes, in raw units.
pub const CORRECTION_PERCENT: i64 = 1_200_000;

/// Approach speed along the normal, in raw units, above which a pair counts as separating.
pub const SEPARATING_SPEED: i64 = -1_000;

/// How many detect-and-resolve passes one fixed step runs.
pub const ITERATIONS: usize = 8;

/// The shape of a collider.
#[derive(Clone, Copy, Debug, PartialEq, Eq)]
pub enum ColliderType {
    Circle { radius: Scalar },
    Box { width: Scalar, height: Scalar },
}

/// What detection reads of one entity.
#[derive(Clone, Copy, Debug, PartialEq, Eq)]
pub struct EntityCollisionData {
    pub entity: u64,
    pub position: [Scalar; 2],
    pub mass: Scalar,
    pub restitution: Scalar,
    pub body_type: BodyType,
    pub collider: ColliderType,
}

/// One contact between two overlapping bodies.
///
/// `normal` points from `entity1` toward `entity2`; `restitution` is the smaller
/// of the two bodies' values.
#[derive(Clone, Copy, Debug, PartialEq, Eq)]
pub struct CollisionInfo {
    pub entity1: u64,
    pub entity2: u64,
    pub normal: [Scalar; 2],
    pub penetration: Scalar,
    pub contact_point: [Scalar; 2],
    pub mass1: Scalar,
    pub mass2: Scalar,
    pub restitution: Scalar,
    pub body_type1: BodyType,
    pub body_type2: BodyType,
}

} // verus!
