//! Integration: one semi-implicit Euler step for every dynamic body.

use crate::components::{Components, Force, RigidBody, Transform, Velocity};
use crate::resources::delta_time::DeltaTime;
use crate::resources::resource_container::ResourceContainer;
use crate::systems::MissingResource;
use crate::scalar::{scalar, Scalar};
use crate::world::{
    read_rows, row_ids, world_order, world_view, write_force, write_transform, write_velocity,
};
use hecs::World;
use vstd::prelude::*;

verus! {

/// The velocity after one step: `velocity + (force / mass) * dt`.
pub open spec fn spec_next_velocity(
    velocity: Velocity,
    force: Force,
    body: RigidBody,
    dt: Scalar,
) -> Velocity {
    Velocity {
        linear: [
            velocity.linear[0].add(force.linear[0].div(body.mass).mul(dt)),
            velocity.linear[1].add(force.linear[1].div(body.mass).mul(dt)),
        ],
        angular: velocity.angular,
    }
}

/// The transform after one step at the velocity that the step ends with.
pub open spec fn spec_next_transform(transform: Transform, velocity: Velocity, dt: Scalar) -> Transform {
    transform.translated(velocity.linear[0].mul(dt), velocity.linear[1].mul(dt))
}

/// A force accumulator with nothing in it.
pub open spec fn spec_no_force() -> Force {
    Force { linear: [scalar(0), scalar(0)], torque: scalar(0) }
}

/// One integration step of a body. A dynamic body gains `(force / mass) * dt` of
/// velocity, moves by the new velocity times `dt`, and has its force cleared.
/// Any other body keeps all three.
pub open spec fn spec_integrate(
    transform: Transform,
    velocity: Velocity,
    force: Force,
    body: RigidBody,
    dt: Scalar,
) -> (Transform, Velocity, Force) {
    if body.body_type.is_dynamic() {
        let next = spec_next_velocity(velocity, force, body, dt);
        (spec_next_transform(transform, next, dt), next, spec_no_force())
    } else {
        (transform, velocity, force)
    }
}

/// What one integration step does to the components of one entity: entities
/// that lack a transform, a velocity, a force or a body are left alone.
pub open spec fn physics_on(c: Components, dt: Scalar) -> Components {
    match (c.transform, c.velocity, c.force, c.body) {
        (Some(transform), Some(velocity), Some(force), Some(body)) => {
            let next = spec_integrate(transform, velocity, force, body, dt);
            Components {
                transform: Some(next.0),
                velocity: Some(next.1),
                force: Some(next.2),
                ..c
            }
        },
        _ => c,
    }
}

/// The world after one integration step of every entity.
pub open spec fn spec_update_physics(view: Map<u64, Components>, dt: Scalar) -> Map<
    u64,
    Components,
> {
    Map::new(|id: u64| view.dom().contains(id), |id: u64| physics_on(view[id], dt))
}

/// Advances one body by one step of semi-implicit Euler integration.
pub fn integrate(
    transform: Transform,
    velocity: Velocity,
    force: Force,
    body: RigidBody,
    dt: Scalar,
) -> (next: (Transform, Velocity, Force))
    ensures
        next == spec_integrate(transform, velocity, force, body, dt),
{
    if body.body_type.is_dynamic() {
        let vx = velocity.linear[0].add(force.linear[0].div(body.mass).mul(dt));
        let vy = velocity.linear[1].add(force.linear[1].div(body.mass).mul(dt));
        let moved = transform.translated(vx.mul(dt), vy.mul(dt));
        (
            moved,
            Velocity { linear: [vx, vy], angular: velocity.angular },
            Force { linear: [Scalar::zero(), Scalar::zero()], torque: Scalar::zero() },
        )
    } else {
        (transform, velocity, force)
    }
}

/// Integrates every dynamic body that has a transform, a velocity and a force
/// by one step of length `dt`, and clears its force. Nothing else in the world
/// changes.
pub fn update_physics_with(world: &mut World, dt: DeltaTime)
    ensures
        world_view(*final(world)) == spec_update_physics(world_view(*old(world)), dt.0),
        world_order(*final(world)) == world_order(*old(world)),
{
    let rows = read_rows(world);
    let ghost before = world_view(*world);
    let mut i: usize = 0;
    while i < rows.len()
        invariant
            0 <= i <= rows.len(),
            world_order(*world) == world_order(*old(world)),
            before == world_view(*old(world)),
            row_ids(rows@).no_duplicates(),
            forall|id: u64| before.dom().contains(id) <==> row_ids(rows@).contains(id),
            forall|k: int| 0 <= k < rows.len() ==> (#[trigger] rows[k]).1 == before[rows[k].0],
            world_view(*world).dom() == before.dom(),
            forall|k: int|
                0 <= k < i ==> world_view(*world)[(#[trigger] rows[k]).0] == physics_on(
                    before[rows[k].0],
                    dt.0,
                ),
            forall|k: int|
                i <= k < rows.len() ==> world_view(*world)[(#[trigger] rows[k]).0]
                    == before[rows[k].0],
        decreases rows.len() - i,
    {
        let (id, c) = rows[i];
        assert(row_ids(rows@)[i as int] == id);
        assert(world_view(*world).dom().contains(id));
        match (c.transform, c.velocity, c.force, c.body) {
            (Some(transform), Some(velocity), Some(force), Some(body)) => {
                let next = integrate(transform, velocity, force, body, dt.0);
                write_transform(world, id, next.0);
                write_velocity(world, id, next.1);
                write_force(world, id, next.2);
            },
            _ => {},
        }
        assert forall|k: int| 0 <= k < rows.len() && k != i implies (#[trigger] rows[k]).0
            != id by {
            assert(row_ids(rows@)[k] == rows[k].0);
        }
        i += 1;
    }
    assert(world_view(*world) =~= spec_update_physics(before, dt.0)) by {
        assert forall|id: u64| before.dom().contains(id) implies world_view(*world)[id]
            == physics_on(before[id], dt.0) by {
            let k = choose|k: int| 0 <= k < rows.len() && row_ids(rows@)[k] == id;
            assert(rows[k].0 == id);
        }
    }
}

/// Reads the step length from the resources and integrates the world by it.
/// Without a step length among the resources nothing changes and the lack is
/// reported. Whether a type is among the resources is decided by the resource
/// store, so the contract covers both outcomes.
pub fn update_physics(world: &mut World, resources: &mut ResourceContainer) -> (r: Result<
    (),
    MissingResource,
>)
    ensures
        *final(resources) == *old(resources),
        world_order(*final(world)) == world_order(*old(world)),
        match r {
            Ok(()) => exists|dt: Scalar|
                world_view(*final(world)) == spec_update_physics(world_view(*old(world)), dt),
            Err(e) => e == MissingResource::DeltaTime && world_view(*final(world)) == world_view(
                *old(world),
            ),
        },
{
    let found = match resources.get::<DeltaTime>() {
        Some(dt) => Some(*dt),
        None => None,
    };
    match found {
        Some(dt) => {
            update_physics_with(world, dt);
            Ok(())
        },
        None => Err(MissingResource::DeltaTime),
    }
}

} // verus!
