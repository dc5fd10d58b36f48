//! The normal of every contact points from the first body toward the second.

use crate::scalar::{
    lemma_div_sign, lemma_sqrt_floor_exists, scalar, sqrt_floor, Scalar,
};
use crate::systems::contact::{ColliderType, CollisionInfo, EntityCollisionData};
use crate::systems::detection::{
    length_squared, spec_detect_box_box, spec_detect_circle_box, spec_detect_circle_circle,
    spec_detect_collision,
};
use vstd::prelude::*;

verus! {

/// Bound on positions and sizes, in raw units, within which detection never saturates.
pub const EXTENT: i64 = 100_000_000_000_000;

/// Whether a coordinate lies within the extent.
pub open spec fn within_extent(v: Scalar) -> bool {
    -(EXTENT as int) <= v@ <= EXTENT as int
}

/// Whether a size is not negative and lies within the extent.
pub open spec fn valid_size(v: Scalar) -> bool {
    0 <= v@ <= EXTENT as int
}

/// Whether the body lies within the extent and its shape has valid sizes.
pub open spec fn placed(d: EntityCollisionData) -> bool {
    &&& within_extent(d.position[0])
    &&& within_extent(d.position[1])
    &&& match d.collider {
        ColliderType::Circle { radius } => valid_size(radius),
        ColliderType::Box { width, height } => valid_size(width) && valid_size(height),
    }
}

/// Whether, along one axis, a normal component does not point against the way
/// from the first body to the second.
pub open spec fn same_side(normal: int, from: int, to: int) -> bool {
    &&& to > from ==> normal >= 0
    &&& to < from ==> normal <= 0
}

/// Whether the normal of a contact points from `data1` toward `data2` on both axes.
pub open spec fn points_toward_second(
    c: CollisionInfo,
    data1: EntityCollisionData,
    data2: EntityCollisionData,
) -> bool {
    &&& same_side(c.normal[0]@, data1.position[0]@, data2.position[0]@)
    &&& same_side(c.normal[1]@, data1.position[1]@, data2.position[1]@)
}

/// A component on the same side as the way between the bodies has a
/// non-negative product with it.
pub proof fn lemma_same_side_product(normal: int, from: int, to: int)
    requires
        same_side(normal, from, to),
    ensures
        normal * (to - from) >= 0,
{
    assert(normal * (to - from) >= 0) by (nonlinear_arith)
        requires
            to > from ==> normal >= 0,
            to < from ==> normal <= 0,
    ;
}

/// Between two circles the normal points from the first toward the second.
pub proof fn lemma_circle_circle_normal(
    data1: EntityCollisionData,
    data2: EntityCollisionData,
    radius1: Scalar,
    radius2: Scalar,
)
    requires
        within_extent(data1.position[0]),
        within_extent(data1.position[1]),
        within_extent(data2.position[0]),
        within_extent(data2.position[1]),
    ensures
        match spec_detect_circle_circle(data1, data2, radius1, radius2) {
            Some(c) => points_toward_second(c, data1, data2),
            None => true,
        },
{
    let dx = data2.position[0].sub(data1.position[0]);
    let dy = data2.position[1].sub(data1.position[1]);
    let d2 = length_squared(dx, dy);
    assert(d2 >= 0) by (nonlinear_arith)
        requires
            d2 == dx@ * dx@ + dy@ * dy@,
    ;
    lemma_sqrt_floor_exists(d2);
    let distance = scalar(sqrt_floor(d2));
    lemma_div_sign(dx, distance);
    lemma_div_sign(dy, distance);
}

/// Between a circle and a box the normal points from the circle toward the box.
pub proof fn lemma_circle_box_normal(
    circle_data: EntityCollisionData,
    box_data: EntityCollisionData,
    radius: Scalar,
    box_width: Scalar,
    box_height: Scalar,
)
    requires
        within_extent(circle_data.position[0]),
        within_extent(circle_data.position[1]),
        within_extent(box_data.position[0]),
        within_extent(box_data.position[1]),
        valid_size(box_width),
        valid_size(box_height),
    ensures
        match spec_detect_circle_box(circle_data, box_data, radius, box_width, box_height) {
            Some(c) => points_toward_second(c, circle_data, box_data),
            None => true,
        },
{
    let half_width = box_width.half();
    let half_height = box_height.half();
    let closest_x = circle_data.position[0].sub(box_data.position[0]).max(half_width.neg()).min(
        half_width,
    );
    let closest_y = circle_data.position[1].sub(box_data.position[1]).max(half_height.neg()).min(
        half_height,
    );
    let dx = circle_data.position[0].sub(box_data.position[0].add(closest_x));
    let dy = circle_data.position[1].sub(box_data.position[1].add(closest_y));
    let d2 = length_squared(dx, dy);
    assert(d2 >= 0) by (nonlinear_arith)
        requires
            d2 == dx@ * dx@ + dy@ * dy@,
    ;
    lemma_sqrt_floor_exists(d2);
    let distance = scalar(sqrt_floor(d2));
    lemma_div_sign(dx.neg(), distance);
    lemma_div_sign(dy.neg(), distance);
    assert(same_side(-dx@, circle_data.position[0]@, box_data.position[0]@));
    assert(same_side(-dy@, circle_data.position[1]@, box_data.position[1]@));
}

/// Between two boxes the normal points from the first toward the second.
pub proof fn lemma_box_box_normal(
    data1: EntityCollisionData,
    data2: EntityCollisionData,
    width1: Scalar,
    height1: Scalar,
    width2: Scalar,
    height2: Scalar,
)
    ensures
        match spec_detect_box_box(data1, data2, width1, height1, width2, height2) {
            Some(c) => points_toward_second(c, data1, data2),
            None => true,
        },
{
}

/// Direction of the normal. For bodies within the extent whose shapes have
/// valid sizes, whatever the pair of shapes and whichever branch of a test
/// decides, no component of the contact normal points against the way from the
/// first body to the second; so the normal has a non-negative product with
/// the vector from the first centre to the second.
pub proof fn lemma_normal_points_toward_second(
    data1: EntityCollisionData,
    data2: EntityCollisionData,
)
    requires
        placed(data1),
        placed(data2),
    ensures
        match spec_detect_collision(data1, data2) {
            Some(c) => {
                &&& points_toward_second(c, data1, data2)
                &&& c.normal[0]@ * (data2.position[0]@ - data1.position[0]@) + c.normal[1]@ * (
                data2.position[1]@ - data1.position[1]@) >= 0
            },
            None => true,
        },
{
    match (data1.collider, data2.collider) {
        (ColliderType::Circle { radius: r1 }, ColliderType::Circle { radius: r2 }) => {
            lemma_circle_circle_normal(data1, data2, r1, r2);
        },
        (ColliderType::Circle { radius }, ColliderType::Box { width, height }) => {
            lemma_circle_box_normal(data1, data2, radius, width, height);
        },
        (ColliderType::Box { width, height }, ColliderType::Circle { radius }) => {
            lemma_circle_box_normal(data2, data1, radius, width, height);
        },
        (
            ColliderType::Box { width: w1, height: h1 },
            ColliderType::Box { width: w2, height: h2 },
        ) => {
            lemma_box_box_normal(data1, data2, w1, h1, w2, h2);
        },
    }
    match spec_detect_collision(data1, data2) {
        Some(c) => {
            lemma_same_side_product(c.normal[0]@, data1.position[0]@, data2.position[0]@);
            lemma_same_side_product(c.normal[1]@, data1.position[1]@, data2.position[1]@);
        },
        None => {},
    }
}

} // verus!
