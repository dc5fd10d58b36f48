//! Laws of the simulation, proved from the definitions of the systems.

pub mod bounce;
pub mod correction;
pub mod integration;
pub mod normals;
pub mod penetration;
pub mod restitution;
pub mod separating;
pub mod static_bodies;
pub mod tunnelling;
