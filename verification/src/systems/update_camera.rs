//! The camera system: a place for camera-following logic; at present it does nothing.

use crate::resources::resource_container::ResourceContainer;
use crate::world::{world_order, world_sprites, world_view};
use hecs::World;
use vstd::prelude::*;

verus! {

/// Leaves the world and the resources as they are.
pub fn update_camera(world: &mut World, resources: &mut ResourceContainer)
    ensures
        *final(resources) == *old(resources),
        world_view(*final(world)) == world_view(*old(world)),
        world_order(*final(world)) == world_order(*old(world)),
        world_sprites(*final(world)) == world_sprites(*old(world)),
{
}

} // verus!
