//! Repeated integration of one body under a constant force, alone and as part
//! of a world on which the integration system runs.

use crate::components::{Components, Force, RigidBody, Transform, Velocity};
use crate::scalar::{trunc_div, Scalar, LIMIT, SCALE};
use crate::systems::update_physics::{spec_integrate, spec_update_physics};
use crate::world::with_force;
use vstd::prelude::*;

verus! {

/// Transform and velocity of a body after `n` steps of length `dt`, the same
/// force being put on it before each step and nothing else touching it.
pub open spec fn spec_integrate_steps(
    transform: Transform,
    velocity: Velocity,
    force: Force,
    body: RigidBody,
    dt: Scalar,
    n: nat,
) -> (Transform, Velocity)
    decreases n,
{
    if n == 0 {
        (transform, velocity)
    } else {
        let before = spec_integrate_steps(transform, velocity, force, body, dt, (n - 1) as nat);
        let after = spec_integrate(before.0, before.1, force, body, dt);
        (after.0, after.1)
    }
}

/// Velocity gained in one step along one axis: `(force / mass) * dt`, in raw units.
pub open spec fn velocity_gain(force: Scalar, mass: Scalar, dt: Scalar) -> int {
    force.div(mass).mul(dt)@
}

/// A quotient rounded toward zero is less than one off the exact quotient.
proof fn lemma_trunc_div_is_close(n: int, d: int)
    requires
        d > 0,
    ensures
        -d < d * trunc_div(n, d) - n < d,
{
    if n >= 0 {
        assert(n == d * (n / d) + n % d && 0 <= n % d < d) by (nonlinear_arith)
            requires
                d > 0,
        ;
    } else {
        let m = -n;
        assert(m == d * (m / d) + m % d && 0 <= m % d < d) by (nonlinear_arith)
            requires
                d > 0,
        ;
        assert(d * (-(m / d)) == -(d * (m / d))) by (nonlinear_arith);
    }
}

/// The velocity gained in one step is `(force / mass) * dt` up to the two
/// roundings: times the mass it is less than `mass * (1 + dt)` off `force *
/// dt`, as long as the acceleration does not saturate.
pub proof fn lemma_velocity_gain_is_close(force: Scalar, mass: Scalar, dt: Scalar)
    requires
        mass@ > 0,
        dt@ >= 0,
        within_limit(trunc_div(force@ * SCALE, mass@)),
        within_limit(trunc_div(trunc_div(force@ * SCALE, mass@) * dt@, SCALE as int)),
    ensures
        -(mass@ * (SCALE + dt@)) < velocity_gain(force, mass, dt) * SCALE * mass@ - force@ * dt@
            * SCALE < mass@ * (SCALE + dt@),
{
    let f = force@;
    let m = mass@;
    let t = dt@;
    let pull = trunc_div(f * 1_000_000, m);
    let gain = trunc_div(pull * t, 1_000_000);
    assert(force.div(mass)@ == pull);
    assert(velocity_gain(force, mass, dt) == gain);
    lemma_trunc_div_is_close(f * 1_000_000, m);
    lemma_trunc_div_is_close(pull * t, 1_000_000);
    let e1 = m * pull - f * 1_000_000;
    let e2 = 1_000_000 * gain - pull * t;
    assert(gain * 1_000_000 * m - f * t * 1_000_000 == m * e2 + t * e1) by (nonlinear_arith)
        requires
            e1 == m * pull - f * 1_000_000,
            e2 == 1_000_000 * gain - pull * t,
    ;
    assert(-(m * 1_000_000) < m * e2 < m * 1_000_000) by (nonlinear_arith)
        requires
            m > 0,
            -1_000_000 < e2 < 1_000_000,
    ;
    assert(-(m * t) <= t * e1 <= m * t) by (nonlinear_arith)
        requires
            t >= 0,
            -m < e1 < m,
    ;
    assert(m * (1_000_000 + t) == m * 1_000_000 + m * t) by (nonlinear_arith);
}

/// Distance covered in step `j` by a body that gains `gain` of velocity per
/// step from rest: its velocity at the end of the step times `dt`.
pub open spec fn step_travel(gain: int, dt: int, j: nat) -> int {
    trunc_div(j * gain * dt, SCALE as int)
}

/// Distance covered in the first `n` steps: the sum of the distances of each.
pub open spec fn travel(gain: int, dt: int, n: nat) -> int
    decreases n,
{
    if n == 0 {
        0
    } else {
        travel(gain, dt, (n - 1) as nat) + step_travel(gain, dt, n)
    }
}

/// Closed form of the distance. The distance covered in `n` steps is
/// `gain * dt * n * (n + 1) / 2` up to the rounding of each step, which is
/// less than one raw unit: the sum runs over the velocities at the end of the
/// steps, `1 * gain` to `n * gain`.
pub proof fn lemma_travel_is_triangular(gain: int, dt: int, n: nat)
    ensures
        -2 * n * SCALE <= 2 * SCALE * travel(gain, dt, n) - gain * dt * n * (n + 1) <= 2 * n
            * SCALE,
    decreases n,
{
    if n == 0 {
        assert(gain * dt * n * (n + 1) == 0) by (nonlinear_arith)
            requires
                n == 0,
        ;
    } else {
        let m = (n - 1) as nat;
        lemma_travel_is_triangular(gain, dt, m);
        let p = n * gain * dt;
        let q = step_travel(gain, dt, n);
        assert(q == trunc_div(p, 1_000_000));
        assert(-1_000_000 < 1_000_000 * q - p < 1_000_000);
        let unit = gain * dt;
        assert(p == n * unit) by (nonlinear_arith)
            requires
                p == n * gain * dt,
                unit == gain * dt,
        ;
        assert(gain * dt * n * (n + 1) == unit * m * (m + 1) + 2 * (n * unit)) by (nonlinear_arith)
            requires
                unit == gain * dt,
                m + 1 == n,
        ;
        assert(gain * dt * m * (m + 1) == unit * m * (m + 1)) by (nonlinear_arith)
            requires
                unit == gain * dt,
        ;
    }
}

/// Whether a value can be held without saturating.
pub open spec fn within_limit(v: int) -> bool {
    -(LIMIT as int) <= v <= LIMIT as int
}

/// Whether, along one axis, neither the velocity nor the position saturates
/// in step `j` from rest at `start`.
pub open spec fn step_fits(start: int, gain: int, dt: int, j: nat) -> bool {
    &&& within_limit(j * gain)
    &&& within_limit(step_travel(gain, dt, j))
    &&& within_limit(start + travel(gain, dt, j))
}

/// Whether, along one axis, neither the velocity nor the position saturates
/// during the first `n` steps from rest at `start`.
pub open spec fn never_saturates(start: int, gain: int, dt: int, n: nat) -> bool {
    forall|j: nat| 1 <= j <= n ==> #[trigger] step_fits(start, gain, dt, j)
}

/// One axis of the integration law, for the axis `axis` of the plane.
proof fn lemma_axis_after_steps(
    transform: Transform,
    velocity: Velocity,
    force: Force,
    body: RigidBody,
    dt: Scalar,
    n: nat,
    axis: int,
)
    requires
        0 <= axis < 2,
        body.body_type.is_dynamic(),
        velocity.linear[axis]@ == 0,
        within_limit(transform.position[axis]@),
        never_saturates(
            transform.position[axis]@,
            velocity_gain(force.linear[axis], body.mass, dt),
            dt@,
            n,
        ),
    ensures
        spec_integrate_steps(transform, velocity, force, body, dt, n).1.linear[axis]@ == n
            * velocity_gain(force.linear[axis], body.mass, dt),
        spec_integrate_steps(transform, velocity, force, body, dt, n).0.position[axis]@
            == transform.position[axis]@ + travel(
            velocity_gain(force.linear[axis], body.mass, dt),
            dt@,
            n,
        ),
    decreases n,
{
    let gain = velocity_gain(force.linear[axis], body.mass, dt);
    if n == 0 {
        assert(0 * gain == 0);
    } else {
        let m = (n - 1) as nat;
        assert forall|j: nat| 1 <= j <= m implies #[trigger] step_fits(
            transform.position[axis]@,
            gain,
            dt@,
            j,
        ) by {
            assert(j <= n);
        }
        lemma_axis_after_steps(transform, velocity, force, body, dt, m, axis);
        let before = spec_integrate_steps(transform, velocity, force, body, dt, m);
        assert(m * gain + gain == n * gain) by (nonlinear_arith)
            requires
                m + 1 == n,
        ;
        assert(step_fits(transform.position[axis]@, gain, dt@, n));
        assert(n * gain * dt@ == (n * gain) * dt@);
    }
}

/// Integration property. A dynamic body that starts at rest and has the same
/// force put on it before every step has, after `n` steps with nothing else
/// touching it, on each axis the velocity `n * ((force / mass) * dt)`, and has
/// moved by the sum over the steps of its velocity at the end of each step
/// times `dt`, as long as nothing saturates. Depth, size and angular velocity
/// are unchanged.
pub proof fn lemma_integration_from_rest(
    transform: Transform,
    velocity: Velocity,
    force: Force,
    body: RigidBody,
    dt: Scalar,
    n: nat,
)
    requires
        body.body_type.is_dynamic(),
        velocity.linear[0]@ == 0,
        velocity.linear[1]@ == 0,
        within_limit(transform.position[0]@),
        within_limit(transform.position[1]@),
        never_saturates(
            transform.position[0]@,
            velocity_gain(force.linear[0], body.mass, dt),
            dt@,
            n,
        ),
        never_saturates(
            transform.position[1]@,
            velocity_gain(force.linear[1], body.mass, dt),
            dt@,
            n,
        ),
    ensures
        ({
            let after = spec_integrate_steps(transform, velocity, force, body, dt, n);
            &&& after.1.linear[0]@ == n * velocity_gain(force.linear[0], body.mass, dt)
            &&& after.1.linear[1]@ == n * velocity_gain(force.linear[1], body.mass, dt)
            &&& after.0.position[0]@ == transform.position[0]@ + travel(
                velocity_gain(force.linear[0], body.mass, dt),
                dt@,
                n,
            )
            &&& after.0.position[1]@ == transform.position[1]@ + travel(
                velocity_gain(force.linear[1], body.mass, dt),
                dt@,
                n,
            )
            &&& after.0.position[2] == transform.position[2]
            &&& after.0.size == transform.size
            &&& after.1.angular == velocity.angular
        }),
{
    lemma_axis_after_steps(transform, velocity, force, body, dt, n, 0);
    lemma_axis_after_steps(transform, velocity, force, body, dt, n, 1);
    lemma_steps_keep_the_rest(transform, velocity, force, body, dt, n);
}

/// Integration changes neither depth nor size nor angular velocity.
proof fn lemma_steps_keep_the_rest(
    transform: Transform,
    velocity: Velocity,
    force: Force,
    body: RigidBody,
    dt: Scalar,
    n: nat,
)
    ensures
        spec_integrate_steps(transform, velocity, force, body, dt, n).0.position[2]
            == transform.position[2],
        spec_integrate_steps(transform, velocity, force, body, dt, n).0.size == transform.size,
        spec_integrate_steps(transform, velocity, force, body, dt, n).1.angular
            == velocity.angular,
    decreases n,
{
    if n > 0 {
        lemma_steps_keep_the_rest(transform, velocity, force, body, dt, (n - 1) as nat);
    }
}

/// The world after `n` rounds, each of which puts `force` on the entity `id`
/// and then runs the integration system once with the step length `dt`.
pub open spec fn spec_driven_steps(
    view: Map<u64, Components>,
    id: u64,
    force: Force,
    dt: Scalar,
    n: nat,
) -> Map<u64, Components>
    decreases n,
{
    if n == 0 {
        view
    } else {
        spec_update_physics(
            with_force(spec_driven_steps(view, id, force, dt, (n - 1) as nat), id, force),
            dt,
        )
    }
}

/// In a world driven for `n` rounds, a body with a transform, a velocity and
/// a force is where `n` steps of integration on its own take it.
pub proof fn lemma_driven_body_is_integrated(
    view: Map<u64, Components>,
    id: u64,
    transform: Transform,
    velocity: Velocity,
    body: RigidBody,
    force: Force,
    dt: Scalar,
    n: nat,
)
    requires
        view.dom().contains(id),
        view[id].transform == Some(transform),
        view[id].velocity == Some(velocity),
        view[id].force is Some,
        view[id].body == Some(body),
    ensures
        ({
            let after = spec_driven_steps(view, id, force, dt, n);
            let alone = spec_integrate_steps(transform, velocity, force, body, dt, n);
            &&& after.dom() == view.dom()
            &&& after[id].transform == Some(alone.0)
            &&& after[id].velocity == Some(alone.1)
            &&& after[id].force is Some
            &&& after[id].body == Some(body)
        }),
    decreases n,
{
    if n > 0 {
        lemma_driven_body_is_integrated(
            view,
            id,
            transform,
            velocity,
            body,
            force,
            dt,
            (n - 1) as nat,
        );
        let before = spec_driven_steps(view, id, force, dt, (n - 1) as nat);
        let forced = with_force(before, id, force);
        assert(forced.dom() =~= before.dom());
        assert(forced[id] == Components { force: Some(force), ..before[id] });
        assert(spec_driven_steps(view, id, force, dt, n).dom() =~= view.dom());
    }
}

/// Integration property of the system. Take a world in which a dynamic body
/// with a transform and a force is at rest, and run `n` rounds on it, each of
/// which puts the same force on the body and then runs the integration system
/// once, nothing else touching the body. As long as nothing saturates, the
/// body then has on each axis the velocity `n * ((force / mass) * dt)` and has
/// moved by the sum over the rounds of its velocity at the end of each round
/// times `dt`. Depth, size and angular velocity are unchanged.
pub proof fn lemma_system_integrates_from_rest(
    view: Map<u64, Components>,
    id: u64,
    transform: Transform,
    velocity: Velocity,
    body: RigidBody,
    force: Force,
    dt: Scalar,
    n: nat,
)
    requires
        view.dom().contains(id),
        view[id].transform == Some(transform),
        view[id].velocity == Some(velocity),
        view[id].force is Some,
        view[id].body == Some(body),
        body.body_type.is_dynamic(),
        velocity.linear[0]@ == 0,
        velocity.linear[1]@ == 0,
        within_limit(transform.position[0]@),
        within_limit(transform.position[1]@),
        never_saturates(
            transform.position[0]@,
            velocity_gain(force.linear[0], body.mass, dt),
            dt@,
            n,
        ),
        never_saturates(
            transform.position[1]@,
            velocity_gain(force.linear[1], body.mass, dt),
            dt@,
            n,
        ),
    ensures
        ({
            let after = spec_driven_steps(view, id, force, dt, n)[id];
            &&& after.transform is Some
            &&& after.velocity is Some
            &&& after.velocity->0.linear[0]@ == n * velocity_gain(force.linear[0], body.mass, dt)
            &&& after.velocity->0.linear[1]@ == n * velocity_gain(force.linear[1], body.mass, dt)
            &&& after.velocity->0.angular == velocity.angular
            &&& after.transform->0.position[0]@ == transform.position[0]@ + travel(
                velocity_gain(force.linear[0], body.mass, dt),
                dt@,
                n,
            )
            &&& after.transform->0.position[1]@ == transform.position[1]@ + travel(
                velocity_gain(force.linear[1], body.mass, dt),
                dt@,
                n,
            )
            &&& after.transform->0.position[2] == transform.position[2]
            &&& after.transform->0.size == transform.size
        }),
{
    lemma_driven_body_is_integrated(view, id, transform, velocity, body, force, dt, n);
    lemma_integration_from_rest(transform, velocity, force, body, dt, n);
}

} // verus!
