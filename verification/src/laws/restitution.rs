//! The two ends of restitution, for bodies of equal mass meeting along an axis.

use crate::components::Velocity;
use crate::laws::normals::within_extent;
use crate::scalar::{scalar, Scalar, LIMIT, SCALE};
use crate::systems::contact::{CollisionInfo, SEPARATING_SPEED};
use crate::systems::resolution::{
    spec_kick1, spec_kick2, spec_normal_speed, spec_rebound, spec_share1, spec_share2,
    spec_slowed, spec_sped,
};
use vstd::prelude::*;

verus! {

/// Whether the normal is one of the four unit vectors along the axes.
pub open spec fn axis_aligned(c: CollisionInfo) -> bool {
    ||| (c.normal[0]@ == SCALE || c.normal[0]@ == -SCALE) && c.normal[1]@ == 0
    ||| (c.normal[1]@ == SCALE || c.normal[1]@ == -SCALE) && c.normal[0]@ == 0
}

/// Whether the contact is between two dynamic bodies of one positive mass,
/// small enough for the sum of the two to be a scalar.
pub open spec fn equal_masses(c: CollisionInfo) -> bool {
    &&& c.body_type1.is_dynamic()
    &&& c.body_type2.is_dynamic()
    &&& c.mass1 == c.mass2
    &&& 0 < c.mass1@
    &&& 2 * c.mass1@ <= LIMIT
}

/// Whether both components of the velocity lie within the extent.
pub open spec fn moderate(v: Velocity) -> bool {
    within_extent(v.linear[0]) && within_extent(v.linear[1])
}

/// The velocities of the two bodies after the impulse of the contact, or as
/// they were if the contact exchanges none.
pub open spec fn after_impulse(c: CollisionInfo, v1: Velocity, v2: Velocity) -> (
    Velocity,
    Velocity,
) {
    match spec_rebound(c, v1, v2) {
        Some(r) => (spec_slowed(v1, spec_kick1(c, r)), spec_sped(v2, spec_kick2(c, r))),
        None => (v1, v2),
    }
}

/// Sum of the squares of all components of two velocities, in squared raw
/// units: the kinetic energy of two bodies of one mass, divided by half that mass.
pub open spec fn energy(v1: Velocity, v2: Velocity) -> int {
    v1.linear[0]@ * v1.linear[0]@ + v1.linear[1]@ * v1.linear[1]@ + v2.linear[0]@ * v2.linear[0]@
        + v2.linear[1]@ * v2.linear[1]@
}

/// Multiplying by plus or minus one, or by zero, is exact.
proof fn lemma_mul_by_unit(a: Scalar, n: Scalar)
    requires
        a.in_range(),
    ensures
        n@ == SCALE ==> a.mul(n)@ == a@,
        n@ == -SCALE ==> a.mul(n)@ == -a@,
        n@ == 0 ==> a.mul(n)@ == 0,
{
    let x = a@;
    if n@ == SCALE {
        assert(x * n@ == x * 1_000_000);
    } else if n@ == -SCALE {
        assert(x * n@ == x * -1_000_000);
    } else if n@ == 0 {
        assert(x * n@ == 0) by (nonlinear_arith)
            requires
                n@ == 0,
        ;
    }
}

/// Of two equal masses each takes half.
proof fn lemma_equal_shares(c: CollisionInfo)
    requires
        equal_masses(c),
    ensures
        spec_share1(c)@ == 500_000,
        spec_share2(c)@ == 500_000,
{
    let m = c.mass1@;
    assert(c.mass1.add(c.mass2)@ == 2 * m);
    assert(m * 1_000_000 > 0);
    assert((m * 1_000_000 + 2 * m - 1) / (2 * m) == 500_000) by (nonlinear_arith)
        requires
            m > 0,
    ;
}

/// What the impulse does along and across the normal, for equal masses and a
/// normal along an axis: the body velocities change by `amount` along the
/// axis of the normal, where `amount` is `-speed` for restitution one and
/// `-speed / 2` rounded toward zero for restitution zero.
proof fn lemma_equal_impulse(c: CollisionInfo, v1: Velocity, v2: Velocity, axis: int)
    requires
        0 <= axis < 2,
        c.normal[axis]@ == SCALE || c.normal[axis]@ == -SCALE,
        c.normal[1 - axis]@ == 0,
        equal_masses(c),
        c.restitution@ == SCALE || c.restitution@ == 0,
        moderate(v1),
        moderate(v2),
        spec_normal_speed(c, v1, v2)@ <= SEPARATING_SPEED as int,
    ensures
        spec_rebound(c, v1, v2) is Some,
        spec_normal_speed(c, v1, v2)@ == (if c.normal[axis]@ == SCALE {
            v2.linear[axis]@ - v1.linear[axis]@
        } else {
            v1.linear[axis]@ - v2.linear[axis]@
        }),
        ({
            let speed = spec_normal_speed(c, v1, v2)@;
            let amount = if c.restitution@ == SCALE {
                -speed
            } else {
                (-speed) / 2
            };
            let push = if c.normal[axis]@ == SCALE {
                amount
            } else {
                -amount
            };
            let after = after_impulse(c, v1, v2);
            &&& after.0.linear[axis]@ == v1.linear[axis]@ - push
            &&& after.1.linear[axis]@ == v2.linear[axis]@ + push
            &&& after.0.linear[1 - axis] == v1.linear[1 - axis]
            &&& after.1.linear[1 - axis] == v2.linear[1 - axis]
        }),
{
    let one = scalar(SCALE as int);
    let along = v2.linear[axis].sub(v1.linear[axis]);
    let across = v2.linear[1 - axis].sub(v1.linear[1 - axis]);
    lemma_mul_by_unit(along, c.normal[axis]);
    lemma_mul_by_unit(across, c.normal[1 - axis]);
    let speed = spec_normal_speed(c, v1, v2);
    assert(speed@ == along.mul(c.normal[axis])@);
    lemma_equal_shares(c);
    let factor = one.add(c.restitution).neg();
    let rebound = factor.mul(speed);
    assert(spec_rebound(c, v1, v2) == Some(rebound));
    if c.restitution@ == SCALE {
        let k = -2 * speed@;
        assert(factor@ * speed@ == 1_000_000 * k) by (nonlinear_arith)
            requires
                factor@ == -2_000_000,
                k == -2 * speed@,
        ;
        assert((1_000_000 * k) / 1_000_000 == k);
        assert(rebound@ == -2 * speed@);
    } else {
        let k = -speed@;
        assert(factor@ * speed@ == 1_000_000 * k) by (nonlinear_arith)
            requires
                factor@ == -1_000_000,
                k == -speed@,
        ;
        assert((1_000_000 * k) / 1_000_000 == k);
        assert(rebound@ == -speed@);
    }
    let share = spec_share1(c);
    assert(share == spec_share2(c));
    let magnitude = rebound.mul(share);
    assert(rebound@ * share@ == rebound@ * 500_000);
    assert(magnitude@ == (if c.restitution@ == SCALE {
        -speed@
    } else {
        (-speed@) / 2
    }));
    lemma_mul_by_unit(magnitude, c.normal[axis]);
    lemma_mul_by_unit(magnitude, c.normal[1 - axis]);
    let kick = spec_kick1(c, rebound);
    assert(kick == spec_kick2(c, rebound));
    assert(kick[axis] == magnitude.mul(c.normal[axis]));
    assert(kick[1 - axis] == magnitude.mul(c.normal[1 - axis]));
}

/// Elastic end. Two dynamic bodies of equal mass that approach each other
/// along an axis, with restitution one, exchange their velocities along that
/// axis and keep them across it; their kinetic energy is exactly what it was.
pub proof fn lemma_elastic_equal_masses_exchange_velocities(
    c: CollisionInfo,
    v1: Velocity,
    v2: Velocity,
)
    requires
        axis_aligned(c),
        equal_masses(c),
        c.restitution@ == SCALE,
        moderate(v1),
        moderate(v2),
        spec_normal_speed(c, v1, v2)@ <= SEPARATING_SPEED as int,
    ensures
        spec_rebound(c, v1, v2) is Some,
        c.normal[1]@ == 0 ==> after_impulse(c, v1, v2).0.linear[0] == v2.linear[0]
            && after_impulse(c, v1, v2).1.linear[0] == v1.linear[0] && after_impulse(
            c,
            v1,
            v2,
        ).0.linear[1] == v1.linear[1] && after_impulse(c, v1, v2).1.linear[1] == v2.linear[1],
        c.normal[0]@ == 0 ==> after_impulse(c, v1, v2).0.linear[1] == v2.linear[1]
            && after_impulse(c, v1, v2).1.linear[1] == v1.linear[1] && after_impulse(
            c,
            v1,
            v2,
        ).0.linear[0] == v1.linear[0] && after_impulse(c, v1, v2).1.linear[0] == v2.linear[0],
        energy(after_impulse(c, v1, v2).0, after_impulse(c, v1, v2).1) == energy(v1, v2),
{
    let axis: int = if c.normal[1]@ == 0 {
        0
    } else {
        1
    };
    lemma_equal_impulse(c, v1, v2, axis);
    let after = after_impulse(c, v1, v2);
    assert(after.0.linear[axis] == v2.linear[axis]);
    assert(after.1.linear[axis] == v1.linear[axis]);
}

/// Inelastic end. Two dynamic bodies of equal mass that approach each other
/// along an axis, with restitution zero, are left with no closing speed beyond
/// one raw unit, and do not separate either.
pub proof fn lemma_inelastic_equal_masses_stop_closing(
    c: CollisionInfo,
    v1: Velocity,
    v2: Velocity,
)
    requires
        axis_aligned(c),
        equal_masses(c),
        c.restitution@ == 0,
        moderate(v1),
        moderate(v2),
        spec_normal_speed(c, v1, v2)@ <= SEPARATING_SPEED as int,
    ensures
        spec_rebound(c, v1, v2) is Some,
        -1 <= spec_normal_speed(c, after_impulse(c, v1, v2).0, after_impulse(c, v1, v2).1)@ <= 0,
{
    let axis: int = if c.normal[1]@ == 0 {
        0
    } else {
        1
    };
    lemma_equal_impulse(c, v1, v2, axis);
    let after = after_impulse(c, v1, v2);
    let along = after.1.linear[axis].sub(after.0.linear[axis]);
    let across = after.1.linear[1 - axis].sub(after.0.linear[1 - axis]);
    lemma_mul_by_unit(along, c.normal[axis]);
    lemma_mul_by_unit(across, c.normal[1 - axis]);
}

/// Whether the contact is between two dynamic bodies of positive mass,
/// small enough for the sum of the two to be a scalar.
pub open spec fn dynamic_pair(c: CollisionInfo) -> bool {
    &&& c.body_type1.is_dynamic()
    &&& c.body_type2.is_dynamic()
    &&& 0 < c.mass1@
    &&& 0 < c.mass2@
    &&& c.mass1@ + c.mass2@ <= LIMIT
}

/// A quotient rounded up: the least `q` with `d * q >= n`.
proof fn lemma_rounded_up(n: int, d: int)
    requires
        n >= 0,
        d > 0,
    ensures
        n <= d * ((n + d - 1) / d) <= n + d - 1,
{
    let q = (n + d - 1) / d;
    let r = (n + d - 1) % d;
    assert(n + d - 1 == d * q + r && 0 <= r < d) by (nonlinear_arith)
        requires
            d > 0,
            q == (n + d - 1) / d,
            r == (n + d - 1) % d,
    ;
}

/// The shares of two dynamic bodies make up the whole, or one raw unit more.
proof fn lemma_shares_make_one(c: CollisionInfo)
    requires
        dynamic_pair(c),
    ensures
        0 < spec_share1(c)@ <= SCALE,
        0 < spec_share2(c)@ <= SCALE,
        SCALE <= spec_share1(c)@ + spec_share2(c)@ <= SCALE + 1,
{
    let m1 = c.mass1@;
    let m2 = c.mass2@;
    let sum = m1 + m2;
    assert(c.mass1.add(c.mass2)@ == sum);
    let q1 = (m2 * 1_000_000 + sum - 1) / sum;
    let q2 = (m1 * 1_000_000 + sum - 1) / sum;
    lemma_rounded_up(m2 * 1_000_000, sum);
    lemma_rounded_up(m1 * 1_000_000, sum);
    assert(1 <= q1 <= 1_000_000) by (nonlinear_arith)
        requires
            m2 * 1_000_000 <= sum * q1 <= m2 * 1_000_000 + sum - 1,
            0 < m2 <= sum,
    ;
    assert(1 <= q2 <= 1_000_000) by (nonlinear_arith)
        requires
            m1 * 1_000_000 <= sum * q2 <= m1 * 1_000_000 + sum - 1,
            0 < m1 <= sum,
    ;
    assert(1_000_000 <= q1 + q2 <= 1_000_001) by (nonlinear_arith)
        requires
            m2 * 1_000_000 <= sum * q1 <= m2 * 1_000_000 + sum - 1,
            m1 * 1_000_000 <= sum * q2 <= m1 * 1_000_000 + sum - 1,
            sum == m1 + m2,
            sum > 0,
    ;
    assert(spec_share1(c)@ == q1);
    assert(spec_share2(c)@ == q2);
}

/// Inelastic end, for any two masses. Two dynamic bodies that approach each
/// other along an axis, with restitution zero, are left closing by one raw
/// unit at most, and separating by a millionth of the speed at which they
/// closed at most.
pub proof fn lemma_inelastic_contact_stops_closing(c: CollisionInfo, v1: Velocity, v2: Velocity)
    requires
        axis_aligned(c),
        dynamic_pair(c),
        c.restitution@ == 0,
        moderate(v1),
        moderate(v2),
        spec_normal_speed(c, v1, v2)@ <= SEPARATING_SPEED as int,
    ensures
        spec_rebound(c, v1, v2) is Some,
        -1 <= spec_normal_speed(c, after_impulse(c, v1, v2).0, after_impulse(c, v1, v2).1)@,
        SCALE * spec_normal_speed(c, after_impulse(c, v1, v2).0, after_impulse(c, v1, v2).1)@
            <= -spec_normal_speed(c, v1, v2)@,
{
    let axis: int = if c.normal[1]@ == 0 {
        0
    } else {
        1
    };
    let one = scalar(SCALE as int);
    let along = v2.linear[axis].sub(v1.linear[axis]);
    let across = v2.linear[1 - axis].sub(v1.linear[1 - axis]);
    lemma_mul_by_unit(along, c.normal[axis]);
    lemma_mul_by_unit(across, c.normal[1 - axis]);
    let speed = spec_normal_speed(c, v1, v2);
    assert(speed@ == along.mul(c.normal[axis])@);
    let closing = -speed@;
    let factor = one.add(c.restitution).neg();
    assert(factor@ * speed@ == 1_000_000 * closing) by (nonlinear_arith)
        requires
            factor@ == -1_000_000,
            closing == -speed@,
    ;
    let rebound = factor.mul(speed);
    assert((1_000_000 * closing) / 1_000_000 == closing);
    assert(rebound@ == closing);
    assert(spec_rebound(c, v1, v2) == Some(rebound));
    lemma_shares_make_one(c);
    let share1 = spec_share1(c);
    let share2 = spec_share2(c);
    let first = rebound.mul(share1);
    let second = rebound.mul(share2);
    let p1 = rebound@ * share1@;
    let p2 = rebound@ * share2@;
    assert(0 <= p1 && 0 <= p2 && 1_000_000 * closing <= p1 + p2 <= 1_000_001 * closing)
        by (nonlinear_arith)
        requires
            p1 == closing * share1@,
            p2 == closing * share2@,
            closing > 0,
            0 < share1@,
            0 < share2@,
            1_000_000 <= share1@ + share2@ <= 1_000_001,
    ;
    assert(p1 <= 1_000_000 * closing && p2 <= 1_000_000 * closing) by (nonlinear_arith)
        requires
            p1 == closing * share1@,
            p2 == closing * share2@,
            closing > 0,
            share1@ <= 1_000_000,
            share2@ <= 1_000_000,
    ;
    assert(first@ == p1 / 1_000_000);
    assert(second@ == p2 / 1_000_000);
    assert(closing - 1 <= first@ + second@);
    assert(1_000_000 * (first@ + second@) <= 1_000_001 * closing);
    lemma_mul_by_unit(first, c.normal[axis]);
    lemma_mul_by_unit(first, c.normal[1 - axis]);
    lemma_mul_by_unit(second, c.normal[axis]);
    lemma_mul_by_unit(second, c.normal[1 - axis]);
    let kick1 = spec_kick1(c, rebound);
    let kick2 = spec_kick2(c, rebound);
    assert(kick1[axis] == first.mul(c.normal[axis]));
    assert(kick2[axis] == second.mul(c.normal[axis]));
    assert(kick1[1 - axis] == first.mul(c.normal[1 - axis]));
    assert(kick2[1 - axis] == second.mul(c.normal[1 - axis]));
    let after = after_impulse(c, v1, v2);
    let along_after = after.1.linear[axis].sub(after.0.linear[axis]);
    let across_after = after.1.linear[1 - axis].sub(after.0.linear[1 - axis]);
    lemma_mul_by_unit(along_after, c.normal[axis]);
    lemma_mul_by_unit(across_after, c.normal[1 - axis]);
    assert(spec_normal_speed(c, after.0, after.1)@ == speed@ + first@ + second@);
}

} // verus!
