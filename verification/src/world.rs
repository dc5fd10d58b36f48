//! The entity-component world as the systems see it.
//!
//! Entities live in a `hecs::World`. The systems read and write six kinds of
//! component through the functions of this module, whose contracts are stated
//! over two views of the world: what each live entity holds, and the order in
//! which the world hands its entities out. Those contracts are taken on trust
//! from `hecs`; everything built on them is proved. Every access goes through
//! a unique borrow of the world, so none of them can meet a component that is
//! borrowed elsewhere.

use crate::components::{
    Animation, BoxCollider, CircleCollider, Components, Force, RigidBody, Sprite, Tile, Transform,
    Velocity,
};
use hecs::{Entity, World};
use vstd::prelude::*;

verus! {

/// `hecs::World`, carried as an opaque value; what it holds is told by
/// `world_view`, `world_order` and `world_sprites`.
#[verifier::external_type_specification]
#[verifier::external_body]
pub struct ExWorld(hecs::World);

/// The physics components of every live entity, keyed by the bits of its handle.
pub uninterp spec fn world_view(world: World) -> Map<u64, Components>;

/// The handles of the live entities, in the order in which a query yields them.
pub uninterp spec fn world_order(world: World) -> Seq<u64>;

/// The animated tiles of the world: for every live entity that has both a tile
/// and an animation, the tile's texture coordinates and the animation.
pub uninterp spec fn world_sprites(world: World) -> Map<u64, Sprite>;

/// The first elements of a sequence of sprite rows.
pub open spec fn sprite_ids(rows: Seq<(u64, Sprite)>) -> Seq<u64> {
    Seq::new(rows.len(), |i: int| rows[i].0)
}

/// The sprites after the sprite of `id` is overwritten; unchanged if `id` has none.
pub open spec fn with_sprite(sprites: Map<u64, Sprite>, id: u64, value: Sprite) -> Map<
    u64,
    Sprite,
> {
    if sprites.dom().contains(id) {
        sprites.insert(id, value)
    } else {
        sprites
    }
}

/// The first elements of a sequence of rows.
pub open spec fn row_ids(rows: Seq<(u64, Components)>) -> Seq<u64> {
    Seq::new(rows.len(), |i: int| rows[i].0)
}

/// One row per entity of `order`, holding what `view` has for it.
pub open spec fn spec_rows(view: Map<u64, Components>, order: Seq<u64>) -> Seq<(u64, Components)> {
    Seq::new(order.len(), |i: int| (order[i], view[order[i]]))
}

/// The transform of `id`, if it is a live entity that has one.
pub open spec fn view_transform(view: Map<u64, Components>, id: u64) -> Option<Transform> {
    if view.dom().contains(id) {
        view[id].transform
    } else {
        None
    }
}

/// The velocity of `id`, if it is a live entity that has one.
pub open spec fn view_velocity(view: Map<u64, Components>, id: u64) -> Option<Velocity> {
    if view.dom().contains(id) {
        view[id].velocity
    } else {
        None
    }
}

/// The view after the transform of `id` is overwritten; unchanged if `id` has none.
pub open spec fn with_transform(view: Map<u64, Components>, id: u64, value: Transform) -> Map<
    u64,
    Components,
> {
    if view.dom().contains(id) && view[id].transform is Some {
        view.insert(id, Components { transform: Some(value), ..view[id] })
    } else {
        view
    }
}

/// The view after the velocity of `id` is overwritten; unchanged if `id` has none.
pub open spec fn with_velocity(view: Map<u64, Components>, id: u64, value: Velocity) -> Map<
    u64,
    Components,
> {
    if view.dom().contains(id) && view[id].velocity is Some {
        view.insert(id, Components { velocity: Some(value), ..view[id] })
    } else {
        view
    }
}

/// The view after the force of `id` is overwritten; unchanged if `id` has none.
pub open spec fn with_force(view: Map<u64, Components>, id: u64, value: Force) -> Map<
    u64,
    Components,
> {
    if view.dom().contains(id) && view[id].force is Some {
        view.insert(id, Components { force: Some(value), ..view[id] })
    } else {
        view
    }
}

/// Calls `World::query_mut` for the handle and the six physics components of
/// every entity, each component optional, and copies the rows out. Trusted:
/// the rows come in the world's order, one per live entity, no handle twice,
/// each with the components that the entity holds; the world is left as it was.
#[verifier::external_body]
pub(crate) fn read_rows(world: &mut World) -> (rows: Vec<(u64, Components)>)
    ensures
        rows@ == spec_rows(world_view(*old(world)), world_order(*old(world))),
        row_ids(rows@).no_duplicates(),
        forall|id: u64|
            world_view(*old(world)).dom().contains(id) <==> row_ids(rows@).contains(id),
        world_view(*final(world)) == world_view(*old(world)),
        world_order(*final(world)) == world_order(*old(world)),
        world_sprites(*final(world)) == world_sprites(*old(world)),
{
    world.query_mut::<(Entity, Option<&Transform>, Option<&Velocity>, Option<&Force>,
        Option<&RigidBody>, Option<&CircleCollider>, Option<&BoxCollider>)>()
        .into_iter()
        .map(|(e, t, v, f, b, c, x)| (e.to_bits().get(), Components {
            transform: t.copied(),
            velocity: v.copied(),
            force: f.copied(),
            body: b.copied(),
            circle: c.copied(),
            box_collider: x.copied(),
        }))
        .collect()
}

/// Calls `World::query_one_mut` for the transform of one entity. Trusted: the
/// result is the entity's transform, or `None` where the handle is stale or
/// the entity has no transform; the world is left as it was.
#[verifier::external_body]
pub(crate) fn read_transform(world: &mut World, id: u64) -> (r: Option<Transform>)
    ensures
        r == view_transform(world_view(*old(world)), id),
        world_view(*final(world)) == world_view(*old(world)),
        world_order(*final(world)) == world_order(*old(world)),
        world_sprites(*final(world)) == world_sprites(*old(world)),
{
    Entity::from_bits(id).and_then(|e| world.query_one_mut::<&Transform>(e).ok().copied())
}

/// Calls `World::query_one_mut` for the velocity of one entity. Trusted: the
/// result is the entity's velocity, or `None` where the handle is stale or the
/// entity has no velocity; the world is left as it was.
#[verifier::external_body]
pub(crate) fn read_velocity(world: &mut World, id: u64) -> (r: Option<Velocity>)
    ensures
        r == view_velocity(world_view(*old(world)), id),
        world_view(*final(world)) == world_view(*old(world)),
        world_order(*final(world)) == world_order(*old(world)),
        world_sprites(*final(world)) == world_sprites(*old(world)),
{
    Entity::from_bits(id).and_then(|e| world.query_one_mut::<&Velocity>(e).ok().copied())
}

/// Calls `World::query_one_mut` for a unique reference to the transform of one
/// entity and stores `value` through it. Trusted: only that component changes;
/// nothing changes where the handle is stale or the entity has no transform.
#[verifier::external_body]
pub(crate) fn write_transform(world: &mut World, id: u64, value: Transform)
    ensures
        world_view(*final(world)) == with_transform(world_view(*old(world)), id, value),
        world_order(*final(world)) == world_order(*old(world)),
        world_sprites(*final(world)) == world_sprites(*old(world)),
{
    if let Some(entity) = Entity::from_bits(id) {
        if let Ok(slot) = world.query_one_mut::<&mut Transform>(entity) {
            *slot = value;
        }
    }
}

/// Calls `World::query_one_mut` for a unique reference to the velocity of one
/// entity and stores `value` through it. Trusted: only that component changes;
/// nothing changes where the handle is stale or the entity has no velocity.
#[verifier::external_body]
pub(crate) fn write_velocity(world: &mut World, id: u64, value: Velocity)
    ensures
        world_view(*final(world)) == with_velocity(world_view(*old(world)), id, value),
        world_order(*final(world)) == world_order(*old(world)),
        world_sprites(*final(world)) == world_sprites(*old(world)),
{
    if let Some(entity) = Entity::from_bits(id) {
        if let Ok(slot) = world.query_one_mut::<&mut Velocity>(entity) {
            *slot = value;
        }
    }
}

/// Calls `World::query_one_mut` for a unique reference to the force of one
/// entity and stores `value` through it. Trusted: only that component changes;
/// nothing changes where the handle is stale or the entity has no force.
#[verifier::external_body]
pub(crate) fn write_force(world: &mut World, id: u64, value: Force)
    ensures
        world_view(*final(world)) == with_force(world_view(*old(world)), id, value),
        world_order(*final(world)) == world_order(*old(world)),
        world_sprites(*final(world)) == world_sprites(*old(world)),
{
    if let Some(entity) = Entity::from_bits(id) {
        if let Ok(slot) = world.query_one_mut::<&mut Force>(entity) {
            *slot = value;
        }
    }
}

/// Calls `World::query_mut` for the handle, the tile and the animation of
/// every entity that has both, and copies the rows out. Trusted: one row per
/// such entity, no handle twice, each with the texture coordinates and the
/// animation that the entity holds; the world is left as it was.
#[verifier::external_body]
pub(crate) fn read_sprites(world: &mut World) -> (rows: Vec<(u64, Sprite)>)
    ensures
        sprite_ids(rows@).no_duplicates(),
        forall|id: u64|
            world_sprites(*old(world)).dom().contains(id) <==> sprite_ids(rows@).contains(id),
        forall|k: int|
            0 <= k < rows.len() ==> (#[trigger] rows[k]).1 == world_sprites(*old(world))[rows[k].0],
        world_view(*final(world)) == world_view(*old(world)),
        world_order(*final(world)) == world_order(*old(world)),
        world_sprites(*final(world)) == world_sprites(*old(world)),
{
    world.query_mut::<(Entity, &Tile, &Animation)>()
        .into_iter()
        .map(|(e, tile, animation)| (e.to_bits().get(), Sprite { uv: tile.uv, animation: *animation }))
        .collect()
}

/// Calls `World::query_one_mut` for the tile and the animation of one entity
/// and stores the texture coordinates and the animation through them.
/// Trusted: only those two change; nothing changes where the handle is stale
/// or the entity lacks either component.
#[verifier::external_body]
pub(crate) fn write_sprite(world: &mut World, id: u64, value: Sprite)
    ensures
        world_sprites(*final(world)) == with_sprite(world_sprites(*old(world)), id, value),
        world_view(*final(world)) == world_view(*old(world)),
        world_order(*final(world)) == world_order(*old(world)),
{
    if let Some(entity) = Entity::from_bits(id) {
        if let Ok((tile, animation)) = world.query_one_mut::<(&mut Tile, &mut Animation)>(entity) {
            tile.uv = value.uv;
            *animation = value.animation;
        }
    }
}

} // verus!
