//! The systems that advance the simulation by one fixed step.

use vstd::prelude::*;

pub mod apply_gravity;
pub mod collision_system;
pub mod contact;
pub mod detection;
pub mod resolution;
pub mod update_animation;
pub mod update_camera;
pub mod update_physics;

pub use apply_gravity::{apply_gravity, apply_gravity_with, Gravity};
pub use collision_system::collision_system;
pub use contact::{ColliderType, CollisionInfo, EntityCollisionData};
pub use update_animation::{update_animation, update_animation_with};
pub use update_camera::update_camera;
pub use update_physics::{update_physics, update_physics_with};

verus! {

/// A resource that a system needs and the store does not hold.
#[derive(Debug, Clone, Copy, PartialEq, Eq, Structural)]
pub enum MissingResource {
    Gravity,
    DeltaTime,
}

} // verus!
