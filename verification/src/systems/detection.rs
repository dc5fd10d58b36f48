//! Narrow-phase tests for each pair of shapes, and the all-pairs pass over them.

use crate::scalar::{isqrt, lemma_product_bound, scalar, sqrt_floor, Scalar, LIMIT, SCALE};
use crate::systems::contact::{
    ColliderType, CollisionInfo, EntityCollisionData, MIN_DISTANCE_SQUARED,
};
use vstd::prelude::*;

verus! {

/// Squared length of the vector `(dx, dy)`, in squared raw units.
pub open spec fn length_squared(dx: Scalar, dy: Scalar) -> int {
    dx@ * dx@ + dy@ * dy@
}

/// The unit step along one axis: `+1` when `from` lies below `to`, else `-1`.
pub open spec fn spec_axis_direction(from: Scalar, to: Scalar) -> Scalar {
    if from@ < to@ {
        scalar(SCALE as int)
    } else {
        scalar(-(SCALE as int))
    }
}

/// Contact between two circles, if they overlap and their centres are apart.
pub open spec fn spec_detect_circle_circle(
    data1: EntityCollisionData,
    data2: EntityCollisionData,
    radius1: Scalar,
    radius2: Scalar,
) -> Option<CollisionInfo> {
    let dx = data2.position[0].sub(data1.position[0]);
    let dy = data2.position[1].sub(data1.position[1]);
    let distance_squared = length_squared(dx, dy);
    let min_distance = radius1.add(radius2);
    if distance_squared < min_distance@ * min_distance@ && distance_squared
        > MIN_DISTANCE_SQUARED as int {
        let distance = scalar(sqrt_floor(distance_squared));
        let normal = [dx.div(distance), dy.div(distance)];
        Some(
            CollisionInfo {
                entity1: data1.entity,
                entity2: data2.entity,
                normal,
                penetration: min_distance.sub(distance),
                contact_point: [
                    data1.position[0].add(normal[0].mul(radius1)),
                    data1.position[1].add(normal[1].mul(radius1)),
                ],
                mass1: data1.mass,
                mass2: data2.mass,
                restitution: data1.restitution.min(data2.restitution),
                body_type1: data1.body_type,
                body_type2: data2.body_type,
            },
        )
    } else {
        None
    }
}

/// Normal and penetration for a circle whose centre lies inside the box: the
/// circle leaves along the axis of least overlap, and the normal points from
/// the circle toward the box centre along that axis.
pub open spec fn spec_inside_box(
    circle_data: EntityCollisionData,
    box_data: EntityCollisionData,
    radius: Scalar,
    half_width: Scalar,
    half_height: Scalar,
) -> ([Scalar; 2], Scalar) {
    let offset_x = circle_data.position[0].sub(box_data.position[0]);
    let offset_y = circle_data.position[1].sub(box_data.position[1]);
    let overlap_x = half_width.sub(offset_x.abs());
    let overlap_y = half_height.sub(offset_y.abs());
    if overlap_x@ < overlap_y@ {
        (
            [spec_axis_direction(circle_data.position[0], box_data.position[0]), scalar(0)],
            radius.add(overlap_x),
        )
    } else {
        (
            [scalar(0), spec_axis_direction(circle_data.position[1], box_data.position[1])],
            radius.add(overlap_y),
        )
    }
}

/// Contact between a circle (first) and an axis-aligned box (second).
pub open spec fn spec_detect_circle_box(
    circle_data: EntityCollisionData,
    box_data: EntityCollisionData,
    radius: Scalar,
    box_width: Scalar,
    box_height: Scalar,
) -> Option<CollisionInfo> {
    let half_width = box_width.half();
    let half_height = box_height.half();
    let closest_x = circle_data.position[0].sub(box_data.position[0]).max(half_width.neg()).min(
        half_width,
    );
    let closest_y = circle_data.position[1].sub(box_data.position[1]).max(half_height.neg()).min(
        half_height,
    );
    let closest_point_x = box_data.position[0].add(closest_x);
    let closest_point_y = box_data.position[1].add(closest_y);
    let dx = circle_data.position[0].sub(closest_point_x);
    let dy = circle_data.position[1].sub(closest_point_y);
    let distance_squared = length_squared(dx, dy);
    if distance_squared < radius@ * radius@ {
        let (normal, penetration) = if distance_squared == 0 {
            spec_inside_box(circle_data, box_data, radius, half_width, half_height)
        } else {
            let distance = scalar(sqrt_floor(distance_squared));
            ([dx.neg().div(distance), dy.neg().div(distance)], radius.sub(distance))
        };
        Some(
            CollisionInfo {
                entity1: circle_data.entity,
                entity2: box_data.entity,
                normal,
                penetration,
                contact_point: [closest_point_x, closest_point_y],
                mass1: circle_data.mass,
                mass2: box_data.mass,
                restitution: circle_data.restitution.min(box_data.restitution),
                body_type1: circle_data.body_type,
                body_type2: box_data.body_type,
            },
        )
    } else {
        None
    }
}

/// A contact seen from the other body: entities, masses and kinds swapped, normal reversed.
pub open spec fn spec_flipped(c: CollisionInfo) -> CollisionInfo {
    CollisionInfo {
        entity1: c.entity2,
        entity2: c.entity1,
        normal: [c.normal[0].neg(), c.normal[1].neg()],
        penetration: c.penetration,
        contact_point: c.contact_point,
        mass1: c.mass2,
        mass2: c.mass1,
        restitution: c.restitution,
        body_type1: c.body_type2,
        body_type2: c.body_type1,
    }
}

/// Contact between an axis-aligned box (first) and a circle (second).
pub open spec fn spec_detect_box_circle(
    box_data: EntityCollisionData,
    circle_data: EntityCollisionData,
    box_width: Scalar,
    box_height: Scalar,
    radius: Scalar,
) -> Option<CollisionInfo> {
    match spec_detect_circle_box(circle_data, box_data, radius, box_width, box_height) {
        Some(c) => Some(spec_flipped(c)),
        None => None,
    }
}

/// Contact between two axis-aligned boxes; boxes that merely touch overlap by zero.
pub open spec fn spec_detect_box_box(
    data1: EntityCollisionData,
    data2: EntityCollisionData,
    width1: Scalar,
    height1: Scalar,
    width2: Scalar,
    height2: Scalar,
) -> Option<CollisionInfo> {
    let left1 = data1.position[0].sub(width1.half());
    let right1 = data1.position[0].add(width1.half());
    let top1 = data1.position[1].add(height1.half());
    let bottom1 = data1.position[1].sub(height1.half());
    let left2 = data2.position[0].sub(width2.half());
    let right2 = data2.position[0].add(width2.half());
    let top2 = data2.position[1].add(height2.half());
    let bottom2 = data2.position[1].sub(height2.half());
    if right1@ >= left2@ && left1@ <= right2@ && top1@ >= bottom2@ && bottom1@ <= top2@ {
        let overlap_x = right1.sub(left2).min(right2.sub(left1));
        let overlap_y = top1.sub(bottom2).min(top2.sub(bottom1));
        let (normal, penetration) = if overlap_x@ < overlap_y@ {
            ([spec_axis_direction(data1.position[0], data2.position[0]), scalar(0)], overlap_x)
        } else {
            ([scalar(0), spec_axis_direction(data1.position[1], data2.position[1])], overlap_y)
        };
        Some(
            CollisionInfo {
                entity1: data1.entity,
                entity2: data2.entity,
                normal,
                penetration,
                contact_point: [
                    data1.position[0].add(data2.position[0]).half(),
                    data1.position[1].add(data2.position[1]).half(),
                ],
                mass1: data1.mass,
                mass2: data2.mass,
                restitution: data1.restitution.min(data2.restitution),
                body_type1: data1.body_type,
                body_type2: data2.body_type,
            },
        )
    } else {
        None
    }
}

/// Contact between two bodies, by the shapes of their colliders.
pub open spec fn spec_detect_collision(
    data1: EntityCollisionData,
    data2: EntityCollisionData,
) -> Option<CollisionInfo> {
    match (data1.collider, data2.collider) {
        (ColliderType::Circle { radius: r1 }, ColliderType::Circle { radius: r2 }) => {
            spec_detect_circle_circle(data1, data2, r1, r2)
        },
        (ColliderType::Circle { radius }, ColliderType::Box { width, height }) => {
            spec_detect_circle_box(data1, data2, radius, width, height)
        },
        (ColliderType::Box { width, height }, ColliderType::Circle { radius }) => {
            spec_detect_box_circle(data1, data2, width, height, radius)
        },
        (
            ColliderType::Box { width: w1, height: h1 },
            ColliderType::Box { width: w2, height: h2 },
        ) => spec_detect_box_box(data1, data2, w1, h1, w2, h2),
    }
}

/// Exact squared length of a vector whose components are arithmetic results.
fn squared_length(dx: Scalar, dy: Scalar) -> (r: i128)
    requires
        dx.in_range(),
        dy.in_range(),
    ensures
        r as int == length_squared(dx, dy),
        0 <= r <= 2_000_000_000_000_000_000_000_000_000_000,
{
    proof {
        lemma_product_bound(dx@, dx@, LIMIT as int, LIMIT as int);
        lemma_product_bound(dy@, dy@, LIMIT as int, LIMIT as int);
        assert(dx@ * dx@ >= 0 && dy@ * dy@ >= 0) by (nonlinear_arith);
        assert(LIMIT as int * LIMIT as int == 1_000_000_000_000_000_000_000_000_000_000)
            by (nonlinear_arith);
    }
    let x: i128 = dx.raw as i128;
    let y: i128 = dy.raw as i128;
    x * x + y * y
}

/// Exact square of an arithmetic result.
fn squared(a: Scalar) -> (r: i128)
    requires
        a.in_range(),
    ensures
        r as int == a@ * a@,
        0 <= r <= 1_000_000_000_000_000_000_000_000_000_000,
{
    proof {
        lemma_product_bound(a@, a@, LIMIT as int, LIMIT as int);
        assert(a@ * a@ >= 0) by (nonlinear_arith);
        assert(LIMIT as int * LIMIT as int == 1_000_000_000_000_000_000_000_000_000_000)
            by (nonlinear_arith);
    }
    let x: i128 = a.raw as i128;
    x * x
}

/// Length of a vector from its exact squared length, rounded down.
fn length_from_squared(distance_squared: i128) -> (d: Scalar)
    requires
        0 <= distance_squared,
    ensures
        d == scalar(sqrt_floor(distance_squared as int)),
{
    let root: u128 = isqrt(distance_squared as u128);
    Scalar::saturate(root as i128)
}

/// The unit step along one axis: `+1` when `from` lies below `to`, else `-1`.
#[verifier::when_used_as_spec(spec_axis_direction)]
pub fn axis_direction(from: Scalar, to: Scalar) -> (d: Scalar)
    ensures
        d == spec_axis_direction(from, to),
{
    if from.raw < to.raw {
        Scalar { raw: SCALE }
    } else {
        Scalar { raw: -SCALE }
    }
}

/// Tests two circles. They collide when their centres are closer than the sum
/// of the radii and not coincident; the normal points from the first centre to
/// the second.
pub fn detect_circle_circle(
    data1: &EntityCollisionData,
    data2: &EntityCollisionData,
    radius1: Scalar,
    radius2: Scalar,
) -> (r: Option<CollisionInfo>)
    ensures
        r == spec_detect_circle_circle(*data1, *data2, radius1, radius2),
{
    let dx = data2.position[0].sub(data1.position[0]);
    let dy = data2.position[1].sub(data1.position[1]);
    let distance_squared = squared_length(dx, dy);
    let min_distance = radius1.add(radius2);
    let min_distance_squared = squared(min_distance);
    if distance_squared < min_distance_squared && distance_squared > MIN_DISTANCE_SQUARED {
        let distance = length_from_squared(distance_squared);
        let normal = [dx.div(distance), dy.div(distance)];
        Some(
            CollisionInfo {
                entity1: data1.entity,
                entity2: data2.entity,
                normal,
                penetration: min_distance.sub(distance),
                contact_point: [
                    data1.position[0].add(normal[0].mul(radius1)),
                    data1.position[1].add(normal[1].mul(radius1)),
                ],
                mass1: data1.mass,
                mass2: data2.mass,
                restitution: data1.restitution.min(data2.restitution),
                body_type1: data1.body_type,
                body_type2: data2.body_type,
            },
        )
    } else {
        None
    }
}

/// Normal and penetration for a circle whose centre lies inside the box.
pub fn inside_box(
    circle_data: &EntityCollisionData,
    box_data: &EntityCollisionData,
    radius: Scalar,
    half_width: Scalar,
    half_height: Scalar,
) -> (r: ([Scalar; 2], Scalar))
    ensures
        r == spec_inside_box(*circle_data, *box_data, radius, half_width, half_height),
{
    let offset_x = circle_data.position[0].sub(box_data.position[0]);
    let offset_y = circle_data.position[1].sub(box_data.position[1]);
    let overlap_x = half_width.sub(offset_x.abs());
    let overlap_y = half_height.sub(offset_y.abs());
    if overlap_x.raw < overlap_y.raw {
        (
            [axis_direction(circle_data.position[0], box_data.position[0]), Scalar::zero()],
            radius.add(overlap_x),
        )
    } else {
        (
            [Scalar::zero(), axis_direction(circle_data.position[1], box_data.position[1])],
            radius.add(overlap_y),
        )
    }
}

/// Tests a circle against an axis-aligned box. The closest point of the box to
/// the circle's centre decides: a centre inside the box leaves along the axis
/// of least overlap, a centre outside collides when the closest point is nearer
/// than the radius. The normal points from the circle toward the box.
pub fn detect_circle_box(
    circle_data: &EntityCollisionData,
    box_data: &EntityCollisionData,
    radius: Scalar,
    box_width: Scalar,
    box_height: Scalar,
) -> (r: Option<CollisionInfo>)
    ensures
        r == spec_detect_circle_box(*circle_data, *box_data, radius, box_width, box_height),
{
    let half_width = box_width.half();
    let half_height = box_height.half();
    let closest_x = circle_data.position[0].sub(box_data.position[0]).max(half_width.neg()).min(
        half_width,
    );
    let closest_y = circle_data.position[1].sub(box_data.position[1]).max(half_height.neg()).min(
        half_height,
    );
    let closest_point_x = box_data.position[0].add(closest_x);
    let closest_point_y = box_data.position[1].add(closest_y);
    let dx = circle_data.position[0].sub(closest_point_x);
    let dy = circle_data.position[1].sub(closest_point_y);
    let distance_squared = squared_length(dx, dy);
    if distance_squared < squared_wide(radius) {
        let (normal, penetration) = if distance_squared == 0 {
            inside_box(circle_data, box_data, radius, half_width, half_height)
        } else {
            let distance = length_from_squared(distance_squared);
            ([dx.neg().div(distance), dy.neg().div(distance)], radius.sub(distance))
        };
        Some(
            CollisionInfo {
                entity1: circle_data.entity,
                entity2: box_data.entity,
                normal,
                penetration,
                contact_point: [closest_point_x, closest_point_y],
                mass1: circle_data.mass,
                mass2: box_data.mass,
                restitution: circle_data.restitution.min(box_data.restitution),
                body_type1: circle_data.body_type,
                body_type2: box_data.body_type,
            },
        )
    } else {
        None
    }
}

/// Exact square of any scalar.
fn squared_wide(a: Scalar) -> (r: i128)
    ensures
        r as int == a@ * a@,
        0 <= r,
{
    proof {
        lemma_product_bound(a@, a@, 0x8000_0000_0000_0000, 0x8000_0000_0000_0000);
        assert(a@ * a@ >= 0) by (nonlinear_arith);
    }
    let x: i128 = a.raw as i128;
    x * x
}

/// The same contact seen from the other body.
#[verifier::when_used_as_spec(spec_flipped)]
pub fn flipped(c: CollisionInfo) -> (r: CollisionInfo)
    ensures
        r == spec_flipped(c),
{
    CollisionInfo {
        entity1: c.entity2,
        entity2: c.entity1,
        normal: [c.normal[0].neg(), c.normal[1].neg()],
        penetration: c.penetration,
        contact_point: c.contact_point,
        mass1: c.mass2,
        mass2: c.mass1,
        restitution: c.restitution,
        body_type1: c.body_type2,
        body_type2: c.body_type1,
    }
}

/// Tests an axis-aligned box against a circle: the circle-box test with the
/// bodies exchanged and the normal reversed, so that it still points from the
/// first body toward the second.
pub fn detect_box_circle(
    box_data: &EntityCollisionData,
    circle_data: &EntityCollisionData,
    box_width: Scalar,
    box_height: Scalar,
    radius: Scalar,
) -> (r: Option<CollisionInfo>)
    ensures
        r == spec_detect_box_circle(*box_data, *circle_data, box_width, box_height, radius),
{
    match detect_circle_box(circle_data, box_data, radius, box_width, box_height) {
        Some(c) => Some(flipped(c)),
        None => None,
    }
}

/// Tests two axis-aligned boxes. They collide when their extents meet on both
/// axes; the axis of least overlap separates them, and the normal points along
/// it from the first centre toward the second.
pub fn detect_box_box(
    data1: &EntityCollisionData,
    data2: &EntityCollisionData,
    width1: Scalar,
    height1: Scalar,
    width2: Scalar,
    height2: Scalar,
) -> (r: Option<CollisionInfo>)
    ensures
        r == spec_detect_box_box(*data1, *data2, width1, height1, width2, height2),
{
    let left1 = data1.position[0].sub(width1.half());
    let right1 = data1.position[0].add(width1.half());
    let top1 = data1.position[1].add(height1.half());
    let bottom1 = data1.position[1].sub(height1.half());
    let left2 = data2.position[0].sub(width2.half());
    let right2 = data2.position[0].add(width2.half());
    let top2 = data2.position[1].add(height2.half());
    let bottom2 = data2.position[1].sub(height2.half());
    if right1.raw >= left2.raw && left1.raw <= right2.raw && top1.raw >= bottom2.raw && bottom1.raw
        <= top2.raw {
        let overlap_x = right1.sub(left2).min(right2.sub(left1));
        let overlap_y = top1.sub(bottom2).min(top2.sub(bottom1));
        let (normal, penetration) = if overlap_x.raw < overlap_y.raw {
            ([axis_direction(data1.position[0], data2.position[0]), Scalar::zero()], overlap_x)
        } else {
            ([Scalar::zero(), axis_direction(data1.position[1], data2.position[1])], overlap_y)
        };
        Some(
            CollisionInfo {
                entity1: data1.entity,
                entity2: data2.entity,
                normal,
                penetration,
                contact_point: [
                    data1.position[0].add(data2.position[0]).half(),
                    data1.position[1].add(data2.position[1]).half(),
                ],
                mass1: data1.mass,
                mass2: data2.mass,
                restitution: data1.restitution.min(data2.restitution),
                body_type1: data1.body_type,
                body_type2: data2.body_type,
            },
        )
    } else {
        None
    }
}

/// Tests two bodies with the test that fits their shapes.
pub fn detect_collision(data1: &EntityCollisionData, data2: &EntityCollisionData) -> (r: Option<
    CollisionInfo,
>)
    ensures
        r == spec_detect_collision(*data1, *data2),
{
    match (data1.collider, data2.collider) {
        (ColliderType::Circle { radius: r1 }, ColliderType::Circle { radius: r2 }) => {
            detect_circle_circle(data1, data2, r1, r2)
        },
        (ColliderType::Circle { radius }, ColliderType::Box { width, height }) => {
            detect_circle_box(data1, data2, radius, width, height)
        },
        (ColliderType::Box { width, height }, ColliderType::Circle { radius }) => {
            detect_box_circle(data1, data2, width, height, radius)
        },
        (
            ColliderType::Box { width: w1, height: h1 },
            ColliderType::Box { width: w2, height: h2 },
        ) => detect_box_box(data1, data2, w1, h1, w2, h2),
    }
}

/// The contact of one pair, unless neither body is dynamic: such pairs are not
/// tested at all.
pub open spec fn spec_pair_contact(
    data1: EntityCollisionData,
    data2: EntityCollisionData,
) -> Option<CollisionInfo> {
    if !data1.body_type.is_dynamic() && !data2.body_type.is_dynamic() {
        None
    } else {
        spec_detect_collision(data1, data2)
    }
}

/// The contacts of body `i` with the bodies after it and before `end`, in order.
pub open spec fn row_contacts(data: Seq<EntityCollisionData>, i: int, end: int) -> Seq<
    CollisionInfo,
>
    decreases end - i,
{
    if end <= i + 1 {
        Seq::empty()
    } else {
        let earlier = row_contacts(data, i, end - 1);
        match spec_pair_contact(data[i], data[end - 1]) {
            Some(c) => earlier.push(c),
            None => earlier,
        }
    }
}

/// The contacts of the first `n` bodies with every body after them, in order.
pub open spec fn contacts_upto(data: Seq<EntityCollisionData>, n: int) -> Seq<CollisionInfo>
    decreases n,
{
    if n <= 0 {
        Seq::empty()
    } else {
        contacts_upto(data, n - 1) + row_contacts(data, n - 1, data.len() as int)
    }
}

/// Every contact among the bodies: pair `(i, j)` with `i < j` comes before pair
/// `(k, l)` when `i < k`, or `i == k` and `j < l`.
pub open spec fn spec_detect_collisions(data: Seq<EntityCollisionData>) -> Seq<CollisionInfo> {
    contacts_upto(data, data.len() as int)
}

/// Tests one pair, unless neither body is dynamic.
pub fn pair_contact(data1: &EntityCollisionData, data2: &EntityCollisionData) -> (r: Option<
    CollisionInfo,
>)
    ensures
        r == spec_pair_contact(*data1, *data2),
{
    if !data1.body_type.is_dynamic() && !data2.body_type.is_dynamic() {
        None
    } else {
        detect_collision(data1, data2)
    }
}

/// Tests every pair of bodies once and reports the contacts in pair order.
pub fn detect_collisions(data: &Vec<EntityCollisionData>) -> (contacts: Vec<CollisionInfo>)
    ensures
        contacts@ == spec_detect_collisions(data@),
{
    let mut contacts: Vec<CollisionInfo> = Vec::new();
    let n = data.len();
    let mut i: usize = 0;
    while i < n
        invariant
            n == data.len(),
            0 <= i <= n,
            contacts@ == contacts_upto(data@, i as int),
        decreases n - i,
    {
        let ghost done = contacts@;
        let mut j: usize = i + 1;
        while j < n
            invariant
                n == data.len(),
                i < n,
                i + 1 <= j <= n,
                done == contacts_upto(data@, i as int),
                contacts@ == done + row_contacts(data@, i as int, j as int),
            decreases n - j,
        {
            let ghost earlier = row_contacts(data@, i as int, j as int);
            match pair_contact(&data[i], &data[j]) {
                Some(c) => {
                    contacts.push(c);
                    assert(contacts@ =~= done + earlier.push(c));
                },
                None => {},
            }
            j += 1;
        }
        i += 1;
    }
    contacts
}

} // verus!
