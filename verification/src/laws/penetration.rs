//! The penetration of every contact is an overlap: it is never negative.

use crate::laws::normals::{placed, valid_size, within_extent};
use crate::scalar::{lemma_sqrt_floor_exists, scalar, sqrt_floor, Scalar};
use crate::systems::contact::{ColliderType, EntityCollisionData};
use crate::systems::detection::{
    length_squared, spec_detect_box_box, spec_detect_circle_box, spec_detect_circle_circle,
    spec_detect_collision,
};
use vstd::prelude::*;

verus! {

/// The rounded-down square root of a number below `bound * bound` is below `bound`.
proof fn lemma_sqrt_below(n: int, bound: int)
    requires
        0 <= n < bound * bound,
        0 <= bound,
    ensures
        0 <= sqrt_floor(n) < bound,
{
    lemma_sqrt_floor_exists(n);
    let r = sqrt_floor(n);
    assert(r < bound) by (nonlinear_arith)
        requires
            0 <= r,
            r * r <= n,
            n < bound * bound,
            0 <= bound,
    ;
}

/// Overlapping circles penetrate by more than nothing.
pub proof fn lemma_circle_circle_penetration(
    data1: EntityCollisionData,
    data2: EntityCollisionData,
    radius1: Scalar,
    radius2: Scalar,
)
    requires
        within_extent(data1.position[0]),
        within_extent(data1.position[1]),
        within_extent(data2.position[0]),
        within_extent(data2.position[1]),
        valid_size(radius1),
        valid_size(radius2),
    ensures
        match spec_detect_circle_circle(data1, data2, radius1, radius2) {
            Some(c) => c.penetration@ > 0,
            None => true,
        },
{
    let dx = data2.position[0].sub(data1.position[0]);
    let dy = data2.position[1].sub(data1.position[1]);
    let d2 = length_squared(dx, dy);
    let reach = radius1.add(radius2);
    assert(d2 >= 0) by (nonlinear_arith)
        requires
            d2 == dx@ * dx@ + dy@ * dy@,
    ;
    if d2 < reach@ * reach@ {
        lemma_sqrt_below(d2, reach@);
    }
}

/// A circle that touches a box penetrates it by more than nothing.
pub proof fn lemma_circle_box_penetration(
    circle_data: EntityCollisionData,
    box_data: EntityCollisionData,
    radius: Scalar,
    box_width: Scalar,
    box_height: Scalar,
)
    requires
        within_extent(circle_data.position[0]),
        within_extent(circle_data.position[1]),
        within_extent(box_data.position[0]),
        within_extent(box_data.position[1]),
        valid_size(radius),
        valid_size(box_width),
        valid_size(box_height),
    ensures
        match spec_detect_circle_box(circle_data, box_data, radius, box_width, box_height) {
            Some(c) => c.penetration@ > 0,
            None => true,
        },
{
    let half_width = box_width.half();
    let half_height = box_height.half();
    let closest_x = circle_data.position[0].sub(box_data.position[0]).max(half_width.neg()).min(
        half_width,
    );
    let closest_y = circle_data.position[1].sub(box_data.position[1]).max(half_height.neg()).min(
        half_height,
    );
    let dx = circle_data.position[0].sub(box_data.position[0].add(closest_x));
    let dy = circle_data.position[1].sub(box_data.position[1].add(closest_y));
    let d2 = length_squared(dx, dy);
    assert(d2 >= 0) by (nonlinear_arith)
        requires
            d2 == dx@ * dx@ + dy@ * dy@,
    ;
    if d2 < radius@ * radius@ {
        lemma_sqrt_below(d2, radius@);
        if d2 == 0 {
            assert(dx@ == 0 && dy@ == 0) by (nonlinear_arith)
                requires
                    dx@ * dx@ + dy@ * dy@ == 0,
            ;
            assert(radius@ > 0) by (nonlinear_arith)
                requires
                    0 < radius@ * radius@,
                    radius@ >= 0,
            ;
        }
    }
}

/// Boxes that meet overlap by nothing or more.
pub proof fn lemma_box_box_penetration(
    data1: EntityCollisionData,
    data2: EntityCollisionData,
    width1: Scalar,
    height1: Scalar,
    width2: Scalar,
    height2: Scalar,
)
    requires
        within_extent(data1.position[0]),
        within_extent(data1.position[1]),
        within_extent(data2.position[0]),
        within_extent(data2.position[1]),
        valid_size(width1),
        valid_size(height1),
        valid_size(width2),
        valid_size(height2),
    ensures
        match spec_detect_box_box(data1, data2, width1, height1, width2, height2) {
            Some(c) => c.penetration@ >= 0,
            None => true,
        },
{
}

/// Depth of a contact. For bodies within the extent whose shapes have valid
/// sizes, the penetration of a detected contact is never negative; it is
/// positive unless both bodies are boxes, which may merely touch.
pub proof fn lemma_penetration_is_not_negative(
    data1: EntityCollisionData,
    data2: EntityCollisionData,
)
    requires
        placed(data1),
        placed(data2),
    ensures
        match spec_detect_collision(data1, data2) {
            Some(c) => c.penetration@ >= 0 && (c.penetration@ > 0 || (data1.collider is Box
                && data2.collider is Box)),
            None => true,
        },
{
    match (data1.collider, data2.collider) {
        (ColliderType::Circle { radius: r1 }, ColliderType::Circle { radius: r2 }) => {
            lemma_circle_circle_penetration(data1, data2, r1, r2);
        },
        (ColliderType::Circle { radius }, ColliderType::Box { width, height }) => {
            lemma_circle_box_penetration(data1, data2, radius, width, height);
        },
        (ColliderType::Box { width, height }, ColliderType::Circle { radius }) => {
            lemma_circle_box_penetration(data2, data1, radius, width, height);
        },
        (
            ColliderType::Box { width: w1, height: h1 },
            ColliderType::Box { width: w2, height: h2 },
        ) => {
            lemma_box_box_penetration(data1, data2, w1, h1, w2, h2);
        },
    }
}

} // verus!
