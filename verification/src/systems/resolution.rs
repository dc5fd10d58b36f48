//! Contact resolution: positional correction, then an impulse along the normal.
//!
//! Contacts are resolved one after another in the order given. Each contact
//! looks its bodies up again in the world, so a body that has disappeared since
//! detection is passed over and a body moved by an earlier contact is moved
//! from where it now stands.
//!
//! The inverse masses of the formulas never appear as numbers: what a contact
//! does is shared out by `m2 / (m1 + m2)` and `m1 / (m1 + m2)`, which are the
//! inverse masses over their sum. Whatever moves a body out of another is
//! rounded away from zero, so a correction that is due is never rounded to
//! nothing.

use crate::components::{Components, Transform, Velocity};
use crate::scalar::{scalar, Scalar, SCALE};
use crate::systems::contact::{
    CollisionInfo, CORRECTION_PERCENT, MIN_PENETRATION, SEPARATING_SPEED, SLOP,
};
use crate::world::{
    read_transform, read_velocity, view_transform, view_velocity, with_transform, with_velocity,
    world_order, world_view, write_transform, write_velocity,
};
use hecs::World;
use vstd::prelude::*;

verus! {

/// A contact is resolved when it is deep enough and at least one body is dynamic.
pub open spec fn spec_is_resolvable(c: CollisionInfo) -> bool {
    c.penetration@ >= MIN_PENETRATION as int && (c.body_type1.is_dynamic()
        || c.body_type2.is_dynamic())
}

/// What the masses of a contact come to where they answer as one. For two
/// dynamic bodies it is `m1 * m2 / (m1 + m2)`, for one dynamic body its mass,
/// and zero where neither is dynamic: the inverse of the sum of the inverse
/// masses, in which a body that is not dynamic counts as zero.
pub open spec fn spec_effective_mass(c: CollisionInfo) -> Scalar {
    if c.body_type1.is_dynamic() && c.body_type2.is_dynamic() {
        c.mass1.mul_away(c.mass2).div_away(c.mass1.add(c.mass2))
    } else if c.body_type1.is_dynamic() {
        c.mass1
    } else if c.body_type2.is_dynamic() {
        c.mass2
    } else {
        scalar(0)
    }
}

/// The part that the first of two dynamic bodies takes of what the contact
/// does: its inverse mass over the sum of both, which is `m2 / (m1 + m2)`.
pub open spec fn spec_share1(c: CollisionInfo) -> Scalar {
    c.mass2.div_away(c.mass1.add(c.mass2))
}

/// The part that the second of two dynamic bodies takes: `m1 / (m1 + m2)`.
pub open spec fn spec_share2(c: CollisionInfo) -> Scalar {
    c.mass1.div_away(c.mass1.add(c.mass2))
}

/// `max(penetration - SLOP, 0) * CORRECTION_PERCENT / (inverse mass sum)`,
/// every step rounded away from zero: a contact deeper than the slop between
/// bodies of positive mass has a correction of at least one raw unit.
pub open spec fn spec_correction(c: CollisionInfo) -> Scalar {
    c.penetration.sub(scalar(SLOP as int)).max(scalar(0)).mul_away(
        scalar(CORRECTION_PERCENT as int),
    ).mul_away(spec_effective_mass(c))
}

/// The length by which the first body is moved: its share of the correction
/// where the second is dynamic too, else all of it.
pub open spec fn spec_reach1(c: CollisionInfo) -> Scalar {
    if c.body_type2.is_dynamic() {
        spec_correction(c).mul_away(spec_share1(c))
    } else {
        spec_correction(c)
    }
}

/// The length by which the second body is moved: its share of the correction
/// where the first is dynamic too, else all of it.
pub open spec fn spec_reach2(c: CollisionInfo) -> Scalar {
    if c.body_type1.is_dynamic() {
        spec_correction(c).mul_away(spec_share2(c))
    } else {
        spec_correction(c)
    }
}

/// How far the first body is moved against the normal, per axis, rounded away
/// from zero. Meaningful when the first body is dynamic.
pub open spec fn spec_push1(c: CollisionInfo) -> [Scalar; 2] {
    [c.normal[0].mul_away(spec_reach1(c)), c.normal[1].mul_away(spec_reach1(c))]
}

/// How far the second body is moved along the normal, per axis, rounded away
/// from zero. Meaningful when the second body is dynamic.
pub open spec fn spec_push2(c: CollisionInfo) -> [Scalar; 2] {
    [c.normal[0].mul_away(spec_reach2(c)), c.normal[1].mul_away(spec_reach2(c))]
}

/// The transform moved back by `push` in the plane.
pub open spec fn spec_moved_back(t: Transform, push: [Scalar; 2]) -> Transform {
    Transform {
        position: [t.position[0].sub(push[0]), t.position[1].sub(push[1]), t.position[2]],
        size: t.size,
    }
}

/// The transform moved forward by `push` in the plane.
pub open spec fn spec_moved_forward(t: Transform, push: [Scalar; 2]) -> Transform {
    Transform {
        position: [t.position[0].add(push[0]), t.position[1].add(push[1]), t.position[2]],
        size: t.size,
    }
}

/// The world after the positional correction of one resolvable contact: each
/// dynamic body that still has a transform is moved, the first against the
/// normal and the second along it.
pub open spec fn spec_correct_positions(view: Map<u64, Components>, c: CollisionInfo) -> Map<
    u64,
    Components,
> {
    let first = match view_transform(view, c.entity1) {
        Some(t) if c.body_type1.is_dynamic() => with_transform(
            view,
            c.entity1,
            spec_moved_back(t, spec_push1(c)),
        ),
        _ => view,
    };
    match view_transform(first, c.entity2) {
        Some(t) if c.body_type2.is_dynamic() => with_transform(
            first,
            c.entity2,
            spec_moved_forward(t, spec_push2(c)),
        ),
        _ => first,
    }
}

/// Speed of the second body relative to the first along the normal; negative
/// while the bodies approach.
pub open spec fn spec_normal_speed(c: CollisionInfo, v1: Velocity, v2: Velocity) -> Scalar {
    v2.linear[0].sub(v1.linear[0]).mul(c.normal[0]).add(
        v2.linear[1].sub(v1.linear[1]).mul(c.normal[1]),
    )
}

/// The speed that the contact takes out of the approach and gives back as
/// bounce, `-(1 + restitution) * speed`, or `None` when the bodies already
/// separate. The impulse is this speed times the effective mass.
pub open spec fn spec_rebound(c: CollisionInfo, v1: Velocity, v2: Velocity) -> Option<Scalar> {
    let speed = spec_normal_speed(c, v1, v2);
    if speed@ > SEPARATING_SPEED as int {
        None
    } else {
        Some(scalar(SCALE as int).add(c.restitution).neg().mul(speed))
    }
}

/// The velocity that the impulse takes from the first body, `impulse / m1`:
/// its share of the rebound where the second is dynamic too, else all of it,
/// along the normal.
pub open spec fn spec_kick1(c: CollisionInfo, rebound: Scalar) -> [Scalar; 2] {
    let speed = if c.body_type2.is_dynamic() {
        rebound.mul(spec_share1(c))
    } else {
        rebound
    };
    [speed.mul(c.normal[0]), speed.mul(c.normal[1])]
}

/// The velocity that the impulse gives to the second body, `impulse / m2`:
/// its share of the rebound where the first is dynamic too, else all of it,
/// along the normal.
pub open spec fn spec_kick2(c: CollisionInfo, rebound: Scalar) -> [Scalar; 2] {
    let speed = if c.body_type1.is_dynamic() {
        rebound.mul(spec_share2(c))
    } else {
        rebound
    };
    [speed.mul(c.normal[0]), speed.mul(c.normal[1])]
}

/// The velocity less `kick`.
pub open spec fn spec_slowed(v: Velocity, kick: [Scalar; 2]) -> Velocity {
    Velocity {
        linear: [v.linear[0].sub(kick[0]), v.linear[1].sub(kick[1])],
        angular: v.angular,
    }
}

/// The velocity plus `kick`.
pub open spec fn spec_sped(v: Velocity, kick: [Scalar; 2]) -> Velocity {
    Velocity {
        linear: [v.linear[0].add(kick[0]), v.linear[1].add(kick[1])],
        angular: v.angular,
    }
}

/// The world after the impulse of a contact with the given rebound has been
/// applied to its dynamic bodies.
pub open spec fn spec_apply_impulse(
    view: Map<u64, Components>,
    c: CollisionInfo,
    rebound: Scalar,
) -> Map<u64, Components> {
    let first = match view_velocity(view, c.entity1) {
        Some(v) if c.body_type1.is_dynamic() => with_velocity(
            view,
            c.entity1,
            spec_slowed(v, spec_kick1(c, rebound)),
        ),
        _ => view,
    };
    match view_velocity(first, c.entity2) {
        Some(v) if c.body_type2.is_dynamic() => with_velocity(
            first,
            c.entity2,
            spec_sped(v, spec_kick2(c, rebound)),
        ),
        _ => first,
    }
}

/// The world after the velocity step of one resolvable contact. Nothing changes
/// unless both bodies have a velocity and approach each other.
pub open spec fn spec_resolve_velocities(view: Map<u64, Components>, c: CollisionInfo) -> Map<
    u64,
    Components,
> {
    match (view_velocity(view, c.entity1), view_velocity(view, c.entity2)) {
        (Some(v1), Some(v2)) => match spec_rebound(c, v1, v2) {
            Some(rebound) => spec_apply_impulse(view, c, rebound),
            None => view,
        },
        _ => view,
    }
}

/// The world after one contact has been resolved.
pub open spec fn spec_resolve_contact(view: Map<u64, Components>, c: CollisionInfo) -> Map<
    u64,
    Components,
> {
    if spec_is_resolvable(c) {
        spec_resolve_velocities(spec_correct_positions(view, c), c)
    } else {
        view
    }
}

/// The world after the contacts have been resolved one after another.
pub open spec fn spec_resolve_collisions(
    view: Map<u64, Components>,
    contacts: Seq<CollisionInfo>,
) -> Map<u64, Components>
    decreases contacts.len(),
{
    if contacts.len() == 0 {
        view
    } else {
        spec_resolve_contact(
            spec_resolve_collisions(view, contacts.drop_last()),
            contacts.last(),
        )
    }
}

/// Whether resolution acts on the contact at all.
#[verifier::when_used_as_spec(spec_is_resolvable)]
pub fn is_resolvable(c: CollisionInfo) -> (b: bool)
    ensures
        b == spec_is_resolvable(c),
{
    c.penetration.raw >= MIN_PENETRATION && (c.body_type1.is_dynamic()
        || c.body_type2.is_dynamic())
}

/// What the masses of a contact come to where they answer as one.
#[verifier::when_used_as_spec(spec_effective_mass)]
pub fn effective_mass(c: CollisionInfo) -> (s: Scalar)
    ensures
        s == spec_effective_mass(c),
{
    if c.body_type1.is_dynamic() && c.body_type2.is_dynamic() {
        c.mass1.mul_away(c.mass2).div_away(c.mass1.add(c.mass2))
    } else if c.body_type1.is_dynamic() {
        c.mass1
    } else if c.body_type2.is_dynamic() {
        c.mass2
    } else {
        Scalar::zero()
    }
}

/// The magnitude of the positional correction of a contact.
#[verifier::when_used_as_spec(spec_correction)]
pub fn correction(c: CollisionInfo) -> (s: Scalar)
    ensures
        s == spec_correction(c),
{
    c.penetration.sub(Scalar::from_micros(SLOP)).max(Scalar::zero()).mul_away(
        Scalar::from_micros(CORRECTION_PERCENT),
    ).mul_away(effective_mass(c))
}

/// How far positional correction moves the first body against the normal.
#[verifier::when_used_as_spec(spec_push1)]
pub fn push1(c: CollisionInfo) -> (p: [Scalar; 2])
    ensures
        p == spec_push1(c),
{
    let reach = if c.body_type2.is_dynamic() {
        correction(c).mul_away(c.mass2.div_away(c.mass1.add(c.mass2)))
    } else {
        correction(c)
    };
    [c.normal[0].mul_away(reach), c.normal[1].mul_away(reach)]
}

/// How far positional correction moves the second body along the normal.
#[verifier::when_used_as_spec(spec_push2)]
pub fn push2(c: CollisionInfo) -> (p: [Scalar; 2])
    ensures
        p == spec_push2(c),
{
    let reach = if c.body_type1.is_dynamic() {
        correction(c).mul_away(c.mass1.div_away(c.mass1.add(c.mass2)))
    } else {
        correction(c)
    };
    [c.normal[0].mul_away(reach), c.normal[1].mul_away(reach)]
}

/// Speed of the second body relative to the first along the normal.
#[verifier::when_used_as_spec(spec_normal_speed)]
pub fn normal_speed(c: CollisionInfo, v1: Velocity, v2: Velocity) -> (s: Scalar)
    ensures
        s == spec_normal_speed(c, v1, v2),
{
    v2.linear[0].sub(v1.linear[0]).mul(c.normal[0]).add(
        v2.linear[1].sub(v1.linear[1]).mul(c.normal[1]),
    )
}

/// The speed that a contact between bodies moving at `v1` and `v2` takes out
/// of their approach and gives back as bounce, or `None` when they already
/// separate.
#[verifier::when_used_as_spec(spec_rebound)]
pub fn rebound(c: CollisionInfo, v1: Velocity, v2: Velocity) -> (r: Option<Scalar>)
    ensures
        r == spec_rebound(c, v1, v2),
{
    let speed = normal_speed(c, v1, v2);
    if speed.raw > SEPARATING_SPEED {
        None
    } else {
        Some(Scalar::one().add(c.restitution).neg().mul(speed))
    }
}

/// The velocity that the impulse takes from the first body.
#[verifier::when_used_as_spec(spec_kick1)]
pub fn kick1(c: CollisionInfo, rebound: Scalar) -> (k: [Scalar; 2])
    ensures
        k == spec_kick1(c, rebound),
{
    let speed = if c.body_type2.is_dynamic() {
        rebound.mul(c.mass2.div_away(c.mass1.add(c.mass2)))
    } else {
        rebound
    };
    [speed.mul(c.normal[0]), speed.mul(c.normal[1])]
}

/// The velocity that the impulse gives to the second body.
#[verifier::when_used_as_spec(spec_kick2)]
pub fn kick2(c: CollisionInfo, rebound: Scalar) -> (k: [Scalar; 2])
    ensures
        k == spec_kick2(c, rebound),
{
    let speed = if c.body_type1.is_dynamic() {
        rebound.mul(c.mass1.div_away(c.mass1.add(c.mass2)))
    } else {
        rebound
    };
    [speed.mul(c.normal[0]), speed.mul(c.normal[1])]
}

/// Moves the dynamic bodies of a resolvable contact apart.
fn correct_positions(world: &mut World, c: CollisionInfo)
    ensures
        world_view(*final(world)) == spec_correct_positions(world_view(*old(world)), c),
        world_order(*final(world)) == world_order(*old(world)),
{
    if c.body_type1.is_dynamic() {
        match read_transform(world, c.entity1) {
            Some(t) => {
                let push = push1(c);
                let moved = Transform {
                    position: [
                        t.position[0].sub(push[0]),
                        t.position[1].sub(push[1]),
                        t.position[2],
                    ],
                    size: t.size,
                };
                write_transform(world, c.entity1, moved);
            },
            None => {},
        }
    }
    if c.body_type2.is_dynamic() {
        match read_transform(world, c.entity2) {
            Some(t) => {
                let push = push2(c);
                let moved = Transform {
                    position: [
                        t.position[0].add(push[0]),
                        t.position[1].add(push[1]),
                        t.position[2],
                    ],
                    size: t.size,
                };
                write_transform(world, c.entity2, moved);
            },
            None => {},
        }
    }
}

/// Applies the impulse of a contact to its dynamic bodies.
fn apply_impulse(world: &mut World, c: CollisionInfo, rebound: Scalar)
    ensures
        world_view(*final(world)) == spec_apply_impulse(world_view(*old(world)), c, rebound),
        world_order(*final(world)) == world_order(*old(world)),
{
    if c.body_type1.is_dynamic() {
        match read_velocity(world, c.entity1) {
            Some(v) => {
                let kick = kick1(c, rebound);
                let slowed = Velocity {
                    linear: [v.linear[0].sub(kick[0]), v.linear[1].sub(kick[1])],
                    angular: v.angular,
                };
                write_velocity(world, c.entity1, slowed);
            },
            None => {},
        }
    }
    if c.body_type2.is_dynamic() {
        match read_velocity(world, c.entity2) {
            Some(v) => {
                let kick = kick2(c, rebound);
                let sped = Velocity {
                    linear: [v.linear[0].add(kick[0]), v.linear[1].add(kick[1])],
                    angular: v.angular,
                };
                write_velocity(world, c.entity2, sped);
            },
            None => {},
        }
    }
}

/// Resolves one contact: positional correction, then the impulse computed
/// from the velocities that the bodies have at that moment.
pub fn resolve_contact(world: &mut World, c: CollisionInfo)
    ensures
        world_view(*final(world)) == spec_resolve_contact(world_view(*old(world)), c),
        world_order(*final(world)) == world_order(*old(world)),
{
    if !is_resolvable(c) {
        return ;
    }
    correct_positions(world, c);
    let v1 = read_velocity(world, c.entity1);
    let v2 = read_velocity(world, c.entity2);
    match (v1, v2) {
        (Some(v1), Some(v2)) => {
            match rebound(c, v1, v2) {
                Some(r) => {
                    apply_impulse(world, c, r);
                },
                None => {},
            }
        },
        _ => {},
    }
}

/// Resolves the contacts in the order given. A contact shallower than the
/// threshold, or between two bodies of which neither is dynamic, changes
/// nothing; a body that is not dynamic is never moved and never receives an
/// impulse; a body that no longer has the component to change is passed over.
pub fn resolve_collisions(world: &mut World, collisions: Vec<CollisionInfo>)
    ensures
        world_view(*final(world)) == spec_resolve_collisions(
            world_view(*old(world)),
            collisions@,
        ),
        world_order(*final(world)) == world_order(*old(world)),
{
    let mut i: usize = 0;
    while i < collisions.len()
        invariant
            0 <= i <= collisions.len(),
            world_order(*world) == world_order(*old(world)),
            world_view(*world) == spec_resolve_collisions(
                world_view(*old(world)),
                collisions@.take(i as int),
            ),
        decreases collisions.len() - i,
    {
        resolve_contact(world, collisions[i]);
        proof {
            let next = collisions@.take(i + 1);
            assert(next.drop_last() =~= collisions@.take(i as int));
            assert(next.last() == collisions@[i as int]);
        }
        i += 1;
    }
    assert(collisions@.take(collisions.len() as int) =~= collisions@);
}

} // verus!
