//! Positional correction drives two overlapping dynamic circles of equal mass apart.

use crate::components::{Components, Transform};
use crate::laws::integration::within_limit;
use crate::laws::normals::{within_extent, EXTENT};
use crate::scalar::{
    lemma_div_away_sign, lemma_div_sign, lemma_mul_away_sign, lemma_sqrt_floor_exists, scalar,
    sqrt_floor, trunc_div, Scalar,
};
use crate::systems::contact::{CollisionInfo, EntityCollisionData, CORRECTION_PERCENT, SLOP};
use crate::systems::detection::{length_squared, spec_detect_circle_circle};
use crate::systems::resolution::{
    spec_correct_positions, spec_correction, spec_effective_mass, spec_is_resolvable,
    spec_moved_back, spec_moved_forward, spec_push1, spec_push2, spec_reach1, spec_reach2,
    spec_resolve_contact, spec_resolve_velocities, spec_share1, spec_share2,
};
use crate::world::view_transform;
use vstd::prelude::*;

verus! {

/// Squared distance between the positions of two transforms, in squared raw units.
pub open spec fn centre_distance_squared(a: Transform, b: Transform) -> int {
    (b.position[0]@ - a.position[0]@) * (b.position[0]@ - a.position[0]@) + (b.position[1]@
        - a.position[1]@) * (b.position[1]@ - a.position[1]@)
}

/// The velocity step of resolution changes no transform.
pub proof fn lemma_velocity_step_keeps_transforms(view: Map<u64, Components>, c: CollisionInfo)
    ensures
        spec_resolve_velocities(view, c).dom() == view.dom(),
        forall|id: u64| #[trigger]
            view_transform(spec_resolve_velocities(view, c), id) == view_transform(view, id),
{
    assert(spec_resolve_velocities(view, c).dom() =~= view.dom());
}

/// Moving two points apart along one axis, each away from the other, does not
/// shrink the square of their difference, and grows it if either moved.
proof fn lemma_axis_grows(from: int, to: int, new_from: int, new_to: int)
    requires
        to >= from ==> new_to >= to && new_from <= from,
        to <= from ==> new_to <= to && new_from >= from,
    ensures
        (new_to - new_from) * (new_to - new_from) >= (to - from) * (to - from),
        new_to != to || new_from != from ==> (new_to - new_from) * (new_to - new_from) > (to
            - from) * (to - from),
{
    let d = to - from;
    let e = new_to - new_from;
    if to >= from {
        assert(e >= d && d >= 0);
        assert(e * e >= d * d) by (nonlinear_arith)
            requires
                e >= d,
                d >= 0,
        ;
        if new_to != to || new_from != from {
            assert(e > d);
            assert(e * e > d * d) by (nonlinear_arith)
                requires
                    e > d,
                    d >= 0,
            ;
        }
    } else {
        assert(e <= d && d <= 0);
        assert(e * e >= d * d) by (nonlinear_arith)
            requires
                e <= d,
                d <= 0,
        ;
        if new_to != to || new_from != from {
            assert(e < d);
            assert(e * e > d * d) by (nonlinear_arith)
                requires
                    e < d,
                    d <= 0,
            ;
        }
    }
}

/// The normal between two centres that are apart does not vanish: its
/// component along the axis on which the centres lie farther apart is not zero.
proof fn lemma_normal_is_not_zero(dx: Scalar, dy: Scalar)
    requires
        -4 * EXTENT <= dx@ <= 4 * EXTENT,
        -4 * EXTENT <= dy@ <= 4 * EXTENT,
        length_squared(dx, dy) > 0,
    ensures
        ({
            let distance = scalar(sqrt_floor(length_squared(dx, dy)));
            dx.div(distance)@ != 0 || dy.div(distance)@ != 0
        }),
{
    let d2 = length_squared(dx, dy);
    lemma_sqrt_floor_exists(d2);
    let r = sqrt_floor(d2);
    let x: int = if dx@ >= 0 {
        dx@
    } else {
        -dx@
    };
    let y: int = if dy@ >= 0 {
        dy@
    } else {
        -dy@
    };
    assert(x * x + y * y == d2) by (nonlinear_arith)
        requires
            d2 == dx@ * dx@ + dy@ * dy@,
            x == dx@ || x == -dx@,
            y == dy@ || y == -dy@,
    ;
    let big: int = if x >= y {
        x
    } else {
        y
    };
    assert(1 <= r <= 2 * big) by (nonlinear_arith)
        requires
            0 <= r,
            r * r <= d2,
            d2 < (r + 1) * (r + 1),
            d2 > 0,
            x * x + y * y == d2,
            0 <= x <= big,
            0 <= y <= big,
    ;
    assert(scalar(r)@ == r);
    assert((big * 1_000_000) / r >= 1) by (nonlinear_arith)
        requires
            1 <= r <= 2 * big,
    ;
    if x >= y {
        assert(dx@ * 1_000_000 == x * 1_000_000 || -(dx@ * 1_000_000) == x * 1_000_000);
        assert(trunc_div(dx@ * 1_000_000, r) != 0);
    } else {
        assert(dy@ * 1_000_000 == y * 1_000_000 || -(dy@ * 1_000_000) == y * 1_000_000);
        assert(trunc_div(dy@ * 1_000_000, r) != 0);
    }
}

/// Between two dynamic circles of one positive mass that overlap by more than
/// the slop, the two bodies are pushed by the same amount. On each axis the
/// push is zero or has the sign of the way from the first centre to the
/// second, and it is not zero on both.
proof fn lemma_push_follows_normal(
    data1: EntityCollisionData,
    data2: EntityCollisionData,
    radius1: Scalar,
    radius2: Scalar,
    c: CollisionInfo,
)
    requires
        within_extent(data1.position[0]),
        within_extent(data1.position[1]),
        within_extent(data2.position[0]),
        within_extent(data2.position[1]),
        data1.body_type.is_dynamic(),
        data2.body_type.is_dynamic(),
        data1.mass == data2.mass,
        data1.mass@ > 0,
        spec_detect_circle_circle(data1, data2, radius1, radius2) == Some(c),
        c.penetration@ > SLOP as int,
    ensures
        spec_push1(c) == spec_push2(c),
        forall|axis: int|
            0 <= axis < 2 ==> {
                &&& data2.position[axis]@ >= data1.position[axis]@ ==> (#[trigger] spec_push1(
                    c,
                )[axis])@ >= 0
                &&& data2.position[axis]@ <= data1.position[axis]@ ==> spec_push1(c)[axis]@ <= 0
                &&& spec_push1(c)[axis].in_range()
            },
        spec_push1(c)[0]@ != 0 || spec_push1(c)[1]@ != 0,
{
    let dx = data2.position[0].sub(data1.position[0]);
    let dy = data2.position[1].sub(data1.position[1]);
    let d2 = length_squared(dx, dy);
    lemma_sqrt_floor_exists(d2);
    let distance = scalar(sqrt_floor(d2));
    lemma_div_sign(dx, distance);
    lemma_div_sign(dy, distance);
    lemma_normal_is_not_zero(dx, dy);
    assert(c.normal[0] == dx.div(distance) && c.normal[1] == dy.div(distance));
    assert(c.mass1 == data1.mass && c.mass2 == data2.mass);
    let mass = c.mass1;
    let sum = mass.add(mass);
    assert(sum@ > 0);
    lemma_div_away_sign(mass, sum);
    assert(spec_share1(c) == spec_share2(c));
    lemma_mul_away_sign(mass, mass);
    lemma_div_away_sign(mass.mul_away(mass), sum);
    assert(spec_effective_mass(c)@ > 0);
    let depth = c.penetration.sub(scalar(SLOP as int)).max(scalar(0));
    assert(depth@ > 0);
    let percent = scalar(CORRECTION_PERCENT as int);
    lemma_mul_away_sign(depth, percent);
    lemma_mul_away_sign(depth.mul_away(percent), spec_effective_mass(c));
    assert(spec_correction(c)@ > 0);
    lemma_mul_away_sign(spec_correction(c), spec_share1(c));
    let reach = spec_reach1(c);
    assert(reach == spec_reach2(c));
    assert(reach@ > 0);
    lemma_mul_away_sign(c.normal[0], reach);
    lemma_mul_away_sign(c.normal[1], reach);
    assert(spec_push1(c)[0] == c.normal[0].mul_away(reach));
    assert(spec_push1(c)[1] == c.normal[1].mul_away(reach));
}

/// A correction that is due moves every dynamic body. In a contact deeper
/// than the slop whose normal is not zero, each dynamic body of positive mass
/// is pushed by at least one raw unit along an axis.
pub proof fn lemma_due_correction_moves_each_body(c: CollisionInfo)
    requires
        c.penetration@ > SLOP as int,
        c.normal[0]@ != 0 || c.normal[1]@ != 0,
        c.body_type1.is_dynamic() ==> c.mass1@ > 0,
        c.body_type2.is_dynamic() ==> c.mass2@ > 0,
    ensures
        c.body_type1.is_dynamic() ==> spec_push1(c)[0]@ != 0 || spec_push1(c)[1]@ != 0,
        c.body_type2.is_dynamic() ==> spec_push2(c)[0]@ != 0 || spec_push2(c)[1]@ != 0,
{
    let depth = c.penetration.sub(scalar(SLOP as int)).max(scalar(0));
    assert(depth@ > 0);
    let percent = scalar(CORRECTION_PERCENT as int);
    lemma_mul_away_sign(depth, percent);
    let excess = depth.mul_away(percent);
    if c.body_type1.is_dynamic() || c.body_type2.is_dynamic() {
        if c.body_type1.is_dynamic() && c.body_type2.is_dynamic() {
            let sum = c.mass1.add(c.mass2);
            assert(sum@ > 0);
            lemma_mul_away_sign(c.mass1, c.mass2);
            lemma_div_away_sign(c.mass1.mul_away(c.mass2), sum);
            lemma_div_away_sign(c.mass1, sum);
            lemma_div_away_sign(c.mass2, sum);
        }
        assert(spec_effective_mass(c)@ > 0);
        lemma_mul_away_sign(excess, spec_effective_mass(c));
        assert(spec_correction(c)@ > 0);
        lemma_mul_away_sign(spec_correction(c), spec_share1(c));
        lemma_mul_away_sign(spec_correction(c), spec_share2(c));
        if c.body_type1.is_dynamic() {
            assert(spec_reach1(c)@ > 0);
            lemma_mul_away_sign(c.normal[0], spec_reach1(c));
            lemma_mul_away_sign(c.normal[1], spec_reach1(c));
        }
        if c.body_type2.is_dynamic() {
            assert(spec_reach2(c)@ > 0);
            lemma_mul_away_sign(c.normal[0], spec_reach2(c));
            lemma_mul_away_sign(c.normal[1], spec_reach2(c));
        }
    }
}

/// Separation. Take two overlapping dynamic circles of one positive mass,
/// within the extent, on two entities that have transforms at the circles'
/// centres, and the contact detected between them. If they overlap by more
/// than the slop, then resolving the contact moves the two bodies by the same
/// amount in opposite directions, and their centres are strictly farther apart
/// than before. On an axis on which neither position saturates, the sum of the
/// two positions, and so the midpoint of the centres, is what it was.
pub proof fn lemma_correction_separates_equal_circles(
    view: Map<u64, Components>,
    data1: EntityCollisionData,
    data2: EntityCollisionData,
    radius1: Scalar,
    radius2: Scalar,
    c: CollisionInfo,
    t1: Transform,
    t2: Transform,
)
    requires
        within_extent(data1.position[0]),
        within_extent(data1.position[1]),
        within_extent(data2.position[0]),
        within_extent(data2.position[1]),
        data1.body_type.is_dynamic(),
        data2.body_type.is_dynamic(),
        data1.mass == data2.mass,
        data1.mass@ > 0,
        data1.entity != data2.entity,
        view_transform(view, data1.entity) == Some(t1),
        view_transform(view, data2.entity) == Some(t2),
        t1.position[0] == data1.position[0],
        t1.position[1] == data1.position[1],
        t2.position[0] == data2.position[0],
        t2.position[1] == data2.position[1],
        spec_detect_circle_circle(data1, data2, radius1, radius2) == Some(c),
        c.penetration@ > SLOP as int,
    ensures
        spec_is_resolvable(c),
        spec_push1(c) == spec_push2(c),
        view_transform(spec_resolve_contact(view, c), data1.entity) == Some(
            spec_moved_back(t1, spec_push1(c)),
        ),
        view_transform(spec_resolve_contact(view, c), data2.entity) == Some(
            spec_moved_forward(t2, spec_push2(c)),
        ),
        centre_distance_squared(
            spec_moved_back(t1, spec_push1(c)),
            spec_moved_forward(t2, spec_push2(c)),
        ) > centre_distance_squared(t1, t2),
        forall|axis: int|
            0 <= axis < 2 && within_limit(
                t1.position[axis]@ - (#[trigger] spec_push1(c)[axis])@,
            ) && within_limit(t2.position[axis]@ + spec_push1(c)[axis]@) ==> spec_moved_back(
                t1,
                spec_push1(c),
            ).position[axis]@ + spec_moved_forward(t2, spec_push2(c)).position[axis]@
                == t1.position[axis]@ + t2.position[axis]@,
{
    lemma_push_follows_normal(data1, data2, radius1, radius2, c);
    let corrected = spec_correct_positions(view, c);
    lemma_velocity_step_keeps_transforms(corrected, c);
    assert(c.entity1 == data1.entity && c.entity2 == data2.entity);
    assert(c.body_type1.is_dynamic() && c.body_type2.is_dynamic());
    let a = spec_moved_back(t1, spec_push1(c));
    let b = spec_moved_forward(t2, spec_push2(c));
    assert(view_transform(corrected, data1.entity) == Some(a));
    assert(view_transform(corrected, data2.entity) == Some(b));
    let push = spec_push1(c);
    assert(push[0].in_range() && push[1].in_range());
    lemma_axis_grows(
        t1.position[0]@,
        t2.position[0]@,
        a.position[0]@,
        b.position[0]@,
    );
    lemma_axis_grows(
        t1.position[1]@,
        t2.position[1]@,
        a.position[1]@,
        b.position[1]@,
    );
    assert(push[0]@ != 0 ==> a.position[0]@ != t1.position[0]@);
    assert(push[1]@ != 0 ==> a.position[1]@ != t1.position[1]@);
}

} // verus!
