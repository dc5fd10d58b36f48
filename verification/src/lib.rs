//! Deterministic fixed-point 2D rigid-body physics on top of an entity-component world.
//!
//! Entities live in a `hecs::World`. Once per fixed step gravity is added to the
//! force of every dynamic body, every dynamic body is integrated, and collisions
//! between circles and axis-aligned boxes are detected and resolved. All
//! arithmetic is fixed-point, so a simulation gives the same result wherever
//! it runs.

pub mod components;
pub mod fixed_step;
pub mod laws;
pub mod resources;
pub mod scalar;
pub mod systems;
pub mod world;

pub use components::{
    Animation, BodyType, BoxCollider, CircleCollider, Collider, Components, Force, RigidBody,
    Sprite, Text, TextStyle, Tile, Transform, Velocity,
};
pub use fixed_step::{fixed_step, run_frame, FixedStepScheduler, SchedulerState};
pub use resources::{DeltaTime, InputHandler, ResourceContainer};
pub use scalar::Scalar;
pub use systems::{
    apply_gravity, collision_system, update_animation, update_camera, update_physics,
    CollisionInfo, Gravity, MissingResource,
};
