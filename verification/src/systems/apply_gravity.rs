//! Gravity: a constant acceleration added to the force of every dynamic body.

use crate::components::{Components, Force, RigidBody};
use crate::resources::resource_container::ResourceContainer;
use crate::scalar::Scalar;
use crate::systems::MissingResource;
use crate::world::{read_rows, row_ids, with_force, world_order, world_view, write_force};
use hecs::World;
use vstd::prelude::*;

verus! {

/// The acceleration that gravity gives every dynamic body.
#[derive(Clone, Copy, Debug, PartialEq, Eq)]
pub struct Gravity {
    pub value: [Scalar; 2],
}

impl Default for Gravity {
    fn default() -> (g: Gravity)
        ensures
            g.value[0]@ == 0,
            g.value[1]@ == -9_800_000,
    {
        Gravity { value: [Scalar { raw: 0 }, Scalar { raw: -9_800_000 }] }
    }
}

/// The force on a body after gravity has been added: `force + gravity * mass`
/// for a dynamic body, the force unchanged for any other.
pub open spec fn spec_with_gravity(force: Force, body: RigidBody, gravity: Gravity) -> Force {
    if body.body_type.is_dynamic() {
        Force {
            linear: [
                force.linear[0].add(gravity.value[0].mul(body.mass)),
                force.linear[1].add(gravity.value[1].mul(body.mass)),
            ],
            torque: force.torque,
        }
    } else {
        force
    }
}

/// What gravity does to the components of one entity: entities that lack a
/// force or a body are left alone.
pub open spec fn gravity_on(c: Components, gravity: Gravity) -> Components {
    match (c.force, c.body) {
        (Some(force), Some(body)) => Components {
            force: Some(spec_with_gravity(force, body, gravity)),
            ..c
        },
        _ => c,
    }
}

/// The world after gravity has acted once on every entity.
pub open spec fn spec_apply_gravity(view: Map<u64, Components>, gravity: Gravity) -> Map<
    u64,
    Components,
> {
    Map::new(|id: u64| view.dom().contains(id), |id: u64| gravity_on(view[id], gravity))
}

/// Adds the weight of a body to the force accumulated on it.
#[verifier::when_used_as_spec(spec_with_gravity)]
pub fn with_gravity(force: Force, body: RigidBody, gravity: Gravity) -> (f: Force)
    ensures
        f == spec_with_gravity(force, body, gravity),
{
    if body.body_type.is_dynamic() {
        Force {
            linear: [
                force.linear[0].add(gravity.value[0].mul(body.mass)),
                force.linear[1].add(gravity.value[1].mul(body.mass)),
            ],
            torque: force.torque,
        }
    } else {
        force
    }
}

/// Adds `gravity * mass` to the force of every dynamic body that has a force.
/// Nothing else in the world changes. Calling it twice in one step doubles the
/// acceleration.
pub fn apply_gravity_with(world: &mut World, gravity: Gravity)
    ensures
        world_view(*final(world)) == spec_apply_gravity(world_view(*old(world)), gravity),
        world_order(*final(world)) == world_order(*old(world)),
{
    let rows = read_rows(world);
    let ghost before = world_view(*world);
    let mut i: usize = 0;
    while i < rows.len()
        invariant
            0 <= i <= rows.len(),
            world_order(*world) == world_order(*old(world)),
            before == world_view(*old(world)),
            row_ids(rows@).no_duplicates(),
            forall|id: u64| before.dom().contains(id) <==> row_ids(rows@).contains(id),
            forall|k: int| 0 <= k < rows.len() ==> (#[trigger] rows[k]).1 == before[rows[k].0],
            world_view(*world).dom() == before.dom(),
            forall|k: int|
                0 <= k < i ==> world_view(*world)[(#[trigger] rows[k]).0] == gravity_on(
                    before[rows[k].0],
                    gravity,
                ),
            forall|k: int|
                i <= k < rows.len() ==> world_view(*world)[(#[trigger] rows[k]).0]
                    == before[rows[k].0],
        decreases rows.len() - i,
    {
        let (id, c) = rows[i];
        let ghost current = world_view(*world);
        assert(row_ids(rows@)[i as int] == id);
        assert(current.dom().contains(id));
        match (c.force, c.body) {
            (Some(force), Some(body)) => {
                write_force(world, id, with_gravity(force, body, gravity));
            },
            _ => {},
        }
        assert forall|k: int| 0 <= k < rows.len() && k != i implies (#[trigger] rows[k]).0
            != id by {
            assert(row_ids(rows@)[k] == rows[k].0);
        }
        i += 1;
    }
    assert(world_view(*world) =~= spec_apply_gravity(before, gravity)) by {
        assert forall|id: u64| before.dom().contains(id) implies world_view(*world)[id]
            == gravity_on(before[id], gravity) by {
            let k = choose|k: int| 0 <= k < rows.len() && row_ids(rows@)[k] == id;
            assert(rows[k].0 == id);
        }
    }
}

/// Reads the gravity from the resources and applies it to the world. Without a
/// gravity among the resources nothing changes and the lack is reported.
/// Whether a type is among the resources is decided by the resource store, so
/// the contract covers both outcomes.
pub fn apply_gravity(world: &mut World, resources: &mut ResourceContainer) -> (r: Result<
    (),
    MissingResource,
>)
    ensures
        *final(resources) == *old(resources),
        world_order(*final(world)) == world_order(*old(world)),
        match r {
            Ok(()) => exists|gravity: Gravity|
                world_view(*final(world)) == spec_apply_gravity(world_view(*old(world)), gravity),
            Err(e) => e == MissingResource::Gravity && world_view(*final(world)) == world_view(
                *old(world),
            ),
        },
{
    let found = match resources.get::<Gravity>() {
        Some(gravity) => Some(*gravity),
        None => None,
    };
    match found {
        Some(gravity) => {
            apply_gravity_with(world, gravity);
            Ok(())
        },
        None => Err(MissingResource::Gravity),
    }
}

} // verus!
