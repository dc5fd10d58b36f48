//! The collision system: a fixed number of detect-and-resolve passes per step.

use crate::components::Components;
use crate::resources::resource_container::ResourceContainer;
use crate::systems::contact::{
    ColliderType, CollisionInfo, EntityCollisionData, ITERATIONS,
};
use crate::systems::detection::{detect_collisions, spec_detect_collisions};
use crate::systems::resolution::{resolve_collisions, spec_resolve_collisions};
use crate::world::{read_rows, spec_rows, world_order, world_view};
use hecs::World;
use vstd::prelude::*;

verus! {

/// What detection reads of an entity that carries a circle: it must have a
/// transform and a body, and no box beside the circle.
pub open spec fn spec_circle_entry(id: u64, c: Components) -> Option<EntityCollisionData> {
    match (c.transform, c.body, c.circle, c.box_collider) {
        (Some(transform), Some(body), Some(circle), None) => Some(
            EntityCollisionData {
                entity: id,
                position: [transform.position[0], transform.position[1]],
                mass: body.mass,
                restitution: body.restitution,
                body_type: body.body_type,
                collider: ColliderType::Circle { radius: circle.radius },
            },
        ),
        _ => None,
    }
}

/// What detection reads of an entity that carries a box: it must have a
/// transform and a body, and no circle beside the box.
pub open spec fn spec_box_entry(id: u64, c: Components) -> Option<EntityCollisionData> {
    match (c.transform, c.body, c.circle, c.box_collider) {
        (Some(transform), Some(body), None, Some(collider)) => Some(
            EntityCollisionData {
                entity: id,
                position: [transform.position[0], transform.position[1]],
                mass: body.mass,
                restitution: body.restitution,
                body_type: body.body_type,
                collider: ColliderType::Box { width: collider.width, height: collider.height },
            },
        ),
        _ => None,
    }
}

/// The circles among the first `n` rows, in row order.
pub open spec fn circle_entries(rows: Seq<(u64, Components)>, n: int) -> Seq<EntityCollisionData>
    decreases n,
{
    if n <= 0 {
        Seq::empty()
    } else {
        let earlier = circle_entries(rows, n - 1);
        match spec_circle_entry(rows[n - 1].0, rows[n - 1].1) {
            Some(d) => earlier.push(d),
            None => earlier,
        }
    }
}

/// The boxes among the first `n` rows, in row order.
pub open spec fn box_entries(rows: Seq<(u64, Components)>, n: int) -> Seq<EntityCollisionData>
    decreases n,
{
    if n <= 0 {
        Seq::empty()
    } else {
        let earlier = box_entries(rows, n - 1);
        match spec_box_entry(rows[n - 1].0, rows[n - 1].1) {
            Some(d) => earlier.push(d),
            None => earlier,
        }
    }
}

/// The bodies that take part in detection: every circle, then every box.
/// An entity with both shapes, or with neither, takes no part.
pub open spec fn spec_collider_data(rows: Seq<(u64, Components)>) -> Seq<EntityCollisionData> {
    circle_entries(rows, rows.len() as int) + box_entries(rows, rows.len() as int)
}

/// The world after one pass: detection over the bodies as they stand, then
/// resolution of the contacts found, in detection order.
pub open spec fn spec_collision_pass(view: Map<u64, Components>, order: Seq<u64>) -> Map<
    u64,
    Components,
> {
    spec_resolve_collisions(
        view,
        spec_detect_collisions(spec_collider_data(spec_rows(view, order))),
    )
}

/// The world after `n` passes, each starting from what the one before left.
pub open spec fn spec_collision_passes(view: Map<u64, Components>, order: Seq<u64>, n: nat) -> Map<
    u64,
    Components,
>
    decreases n,
{
    if n == 0 {
        view
    } else {
        spec_collision_pass(spec_collision_passes(view, order, (n - 1) as nat), order)
    }
}

/// What detection reads of an entity that carries a circle and no box.
#[verifier::when_used_as_spec(spec_circle_entry)]
pub fn circle_entry(id: u64, c: Components) -> (r: Option<EntityCollisionData>)
    ensures
        r == spec_circle_entry(id, c),
{
    match (c.transform, c.body, c.circle, c.box_collider) {
        (Some(transform), Some(body), Some(circle), None) => Some(
            EntityCollisionData {
                entity: id,
                position: [transform.position[0], transform.position[1]],
                mass: body.mass,
                restitution: body.restitution,
                body_type: body.body_type,
                collider: ColliderType::Circle { radius: circle.radius },
            },
        ),
        _ => None,
    }
}

/// What detection reads of an entity that carries a box and no circle.
#[verifier::when_used_as_spec(spec_box_entry)]
pub fn box_entry(id: u64, c: Components) -> (r: Option<EntityCollisionData>)
    ensures
        r == spec_box_entry(id, c),
{
    match (c.transform, c.body, c.circle, c.box_collider) {
        (Some(transform), Some(body), None, Some(collider)) => Some(
            EntityCollisionData {
                entity: id,
                position: [transform.position[0], transform.position[1]],
                mass: body.mass,
                restitution: body.restitution,
                body_type: body.body_type,
                collider: ColliderType::Box { width: collider.width, height: collider.height },
            },
        ),
        _ => None,
    }
}

/// Gathers the bodies that take part in detection: the circles in row order,
/// then the boxes in row order.
pub fn collider_data(rows: &Vec<(u64, Components)>) -> (data: Vec<EntityCollisionData>)
    ensures
        data@ == spec_collider_data(rows@),
{
    let mut data: Vec<EntityCollisionData> = Vec::new();
    let n = rows.len();
    let mut i: usize = 0;
    while i < n
        invariant
            n == rows.len(),
            0 <= i <= n,
            data@ == circle_entries(rows@, i as int),
        decreases n - i,
    {
        match circle_entry(rows[i].0, rows[i].1) {
            Some(d) => {
                data.push(d);
            },
            None => {},
        }
        i += 1;
    }
    let ghost circles = data@;
    let mut j: usize = 0;
    while j < n
        invariant
            n == rows.len(),
            0 <= j <= n,
            circles == circle_entries(rows@, n as int),
            data@ == circles + box_entries(rows@, j as int),
        decreases n - j,
    {
        let ghost earlier = box_entries(rows@, j as int);
        match box_entry(rows[j].0, rows[j].1) {
            Some(d) => {
                data.push(d);
                assert(data@ =~= circles + earlier.push(d));
            },
            None => {},
        }
        j += 1;
    }
    data
}

/// Runs one pass: finds every contact among the bodies as they stand and
/// resolves the contacts in the order found.
pub fn collision_pass(world: &mut World)
    ensures
        world_view(*final(world)) == spec_collision_pass(
            world_view(*old(world)),
            world_order(*old(world)),
        ),
        world_order(*final(world)) == world_order(*old(world)),
{
    let rows = read_rows(world);
    let data = collider_data(&rows);
    let collisions = detect_collisions(&data);
    resolve_collisions(world, collisions);
}

/// Runs `passes` passes, each on the world as the one before left it.
pub fn collision_passes(world: &mut World, passes: usize)
    ensures
        world_view(*final(world)) == spec_collision_passes(
            world_view(*old(world)),
            world_order(*old(world)),
            passes as nat,
        ),
        world_order(*final(world)) == world_order(*old(world)),
{
    let mut done: usize = 0;
    while done < passes
        invariant
            0 <= done <= passes,
            world_order(*world) == world_order(*old(world)),
            world_view(*world) == spec_collision_passes(
                world_view(*old(world)),
                world_order(*old(world)),
                done as nat,
            ),
        decreases passes - done,
    {
        collision_pass(world);
        done += 1;
    }
}

/// The world after the collision system has run: `ITERATIONS` passes.
pub open spec fn spec_collision_system(view: Map<u64, Components>, order: Seq<u64>) -> Map<
    u64,
    Components,
> {
    spec_collision_passes(view, order, ITERATIONS as nat)
}

/// Detects and resolves collisions among all bodies, `ITERATIONS` times over.
/// Each pass works on the positions and velocities that the pass before left.
/// The resources are not consulted.
pub fn collision_system(world: &mut World, resources: &mut ResourceContainer)
    ensures
        *final(resources) == *old(resources),
        world_view(*final(world)) == spec_collision_system(
            world_view(*old(world)),
            world_order(*old(world)),
        ),
        world_order(*final(world)) == world_order(*old(world)),
{
    collision_passes(world, ITERATIONS);
}

} // verus!
