//! A ball dropped onto a floor never passes through it.

use crate::components::Components;
use crate::fixed_step::{spec_fixed_step, spec_fixed_steps};
use crate::laws::bounce::{
    after_landing, ball_data, ball_over_floor, bounce_speed, floor_data, has_headroom,
    lemma_ball_is_lifted_out, lemma_bounce_speed, lemma_landed_is_settled,
    lemma_pass_over_floor, lemma_passes_are_one_pass, lift, shared_restitution, sunk,
};
use crate::scalar::{trunc_div, Scalar, SCALE};
use crate::systems::apply_gravity::{gravity_on, spec_apply_gravity, spec_with_gravity, Gravity};
use crate::systems::collision_system::spec_collision_system;
use crate::systems::contact::{MIN_PENETRATION, SEPARATING_SPEED, SLOP};
use crate::systems::update_physics::{physics_on, spec_integrate, spec_update_physics};
use vstd::prelude::*;

verus! {

/// The step length of the scene, a sixtieth of a second in raw units.
pub const STEP: i64 = 16_667;

/// Speed that gravity adds in one step of the scene, in raw units.
pub const GAIN: i64 = 163_336;

/// What one raw unit of height counts for in the energy: twice `GAIN` times
/// `SCALE`.
pub const WEIGHT: i64 = 326_672_000_000;

/// Whether gravity pulls straight down at 9.8 and the step is `STEP` long.
pub open spec fn earthly(gravity: Gravity, dt: Scalar) -> bool {
    gravity.value[0]@ == 0 && gravity.value[1]@ == -9_800_000 && dt@ == STEP
}

/// A measure of the energy of the ball: its kinetic energy and its height
/// over the deepest place that the collision system leaves it at, both
/// scaled so that a step of free flight never raises the sum.
pub open spec fn energy(view: Map<u64, Components>, ball: u64, floor: u64) -> int {
    let speed = view[ball].velocity->0.linear[1]@;
    STEP * (speed * speed) + WEIGHT * (SLOP - sunk(view, ball, floor))
}

/// The energy of a ball at rest fourteen units above where it would lie.
pub open spec fn energy_cap() -> int {
    4_573_440_667_200_000_000
}

/// Whether the scene is under way: a ball of radius one half and restitution
/// of at most 0.6 over a floor, with no sideways speed and no force left on
/// it, sunk in the floor by no more than the slop, with no more energy than
/// it can have started with. The top face of the floor lies in the lower
/// three quarters of the extent, so that the ball has room above it.
pub open spec fn in_play(view: Map<u64, Components>, order: Seq<u64>, ball: u64, floor: u64) -> bool {
    &&& ball_over_floor(view, order, ball, floor)
    &&& view[ball].circle->0.radius@ == 500_000
    &&& view[ball].body->0.restitution@ <= 600_000
    &&& view[ball].force is Some
    &&& view[ball].force->0.linear[0]@ == 0
    &&& view[ball].force->0.linear[1]@ == 0
    &&& view[ball].velocity->0.linear[0]@ == 0
    &&& sunk(view, ball, floor) <= SLOP
    &&& energy(view, ball, floor) <= energy_cap()
    &&& floor_data(view, floor).position[1]@ + view[floor].box_collider->0.height.half()@
        <= 50_000_000_000_000
}

/// Whether the world is the scene at its start: a ball of radius one half,
/// mass one and restitution 0.6 at rest ten units up, with no force on it,
/// and a floor twenty wide and one high, at rest with its centre five units
/// down, that is not dynamic.
pub open spec fn dropped(view: Map<u64, Components>, order: Seq<u64>, ball: u64, floor: u64) -> bool {
    &&& ball != floor
    &&& order.len() == 2
    &&& ((order[0] == ball && order[1] == floor) || (order[0] == floor && order[1] == ball))
    &&& view.dom().contains(ball)
    &&& view.dom().contains(floor)
    &&& view[ball].transform is Some
    &&& view[ball].transform->0.position[0]@ == 0
    &&& view[ball].transform->0.position[1]@ == 10_000_000
    &&& view[ball].velocity is Some
    &&& view[ball].velocity->0.linear[0]@ == 0
    &&& view[ball].velocity->0.linear[1]@ == 0
    &&& view[ball].force is Some
    &&& view[ball].force->0.linear[0]@ == 0
    &&& view[ball].force->0.linear[1]@ == 0
    &&& view[ball].body is Some
    &&& view[ball].body->0.body_type.is_dynamic()
    &&& view[ball].body->0.mass@ == SCALE
    &&& view[ball].body->0.restitution@ == 600_000
    &&& view[ball].circle is Some
    &&& view[ball].circle->0.radius@ == 500_000
    &&& view[ball].box_collider is None
    &&& view[floor].transform is Some
    &&& view[floor].transform->0.position[0]@ == 0
    &&& view[floor].transform->0.position[1]@ == -5_000_000
    &&& view[floor].velocity is Some
    &&& view[floor].velocity->0.linear[0]@ == 0
    &&& view[floor].velocity->0.linear[1]@ == 0
    &&& view[floor].body is Some
    &&& !view[floor].body->0.body_type.is_dynamic()
    &&& 0 <= view[floor].body->0.restitution@ <= SCALE
    &&& view[floor].circle is None
    &&& view[floor].box_collider is Some
    &&& view[floor].box_collider->0.width@ == 20_000_000
    &&& view[floor].box_collider->0.height@ == 1_000_000
}

/// The scene at its start is in play, the ball fourteen units over where it
/// would lie.
pub proof fn lemma_dropped_ball_is_in_play(
    view: Map<u64, Components>,
    order: Seq<u64>,
    ball: u64,
    floor: u64,
)
    requires
        dropped(view, order, ball, floor),
    ensures
        in_play(view, order, ball, floor),
        sunk(view, ball, floor) == -14_000_000,
        energy(view, ball, floor) == energy_cap(),
{
    let speed = view[ball].velocity->0.linear[1]@;
    assert(speed * speed == 0) by (nonlinear_arith)
        requires
            speed == 0,
    ;
    assert(view[floor].box_collider->0.height.half()@ == 500_000);
    assert(view[floor].box_collider->0.width.half()@ == 10_000_000);
}

/// What the energy allows: the ball is slower than seventeen units a second
/// and lower than fourteen units over where it would lie.
proof fn lemma_energy_bounds(view: Map<u64, Components>, order: Seq<u64>, ball: u64, floor: u64)
    requires
        in_play(view, order, ball, floor),
    ensures
        -16_600_000 <= view[ball].velocity->0.linear[1]@ <= 16_600_000,
        -14_000_000 <= sunk(view, ball, floor),
{
    let speed = view[ball].velocity->0.linear[1]@;
    let depth = sunk(view, ball, floor);
    assert(speed * speed >= 0) by (nonlinear_arith);
    assert(-16_600_000 <= speed <= 16_600_000) by (nonlinear_arith)
        requires
            16_667 * (speed * speed) + 326_672_000_000 * (100 - depth)
                <= 4_573_440_667_200_000_000,
            depth <= 100,
    ;
}

/// One step of gravity and integration over the scene: the ball gains `GAIN`
/// of downward speed and moves by its new velocity times the step; the
/// floor is as it was.
proof fn lemma_flight(
    view: Map<u64, Components>,
    order: Seq<u64>,
    ball: u64,
    floor: u64,
    gravity: Gravity,
    dt: Scalar,
)
    requires
        in_play(view, order, ball, floor),
        earthly(gravity, dt),
    ensures
        ({
            let mid = spec_update_physics(spec_apply_gravity(view, gravity), dt);
            let speed = view[ball].velocity->0.linear[1]@ - GAIN;
            &&& mid.dom() == view.dom()
            &&& mid[floor] == view[floor]
            &&& mid[ball].body == view[ball].body
            &&& mid[ball].circle == view[ball].circle
            &&& mid[ball].box_collider == view[ball].box_collider
            &&& mid[ball].force is Some
            &&& mid[ball].force->0.linear[0]@ == 0
            &&& mid[ball].force->0.linear[1]@ == 0
            &&& mid[ball].velocity is Some
            &&& mid[ball].velocity->0.linear[0]@ == 0
            &&& mid[ball].velocity->0.linear[1]@ == speed
            &&& mid[ball].transform is Some
            &&& mid[ball].transform->0.position[0] == view[ball].transform->0.position[0]
            &&& mid[ball].transform->0.position[1]@ == view[ball].transform->0.position[1]@
                + trunc_div(speed * STEP, SCALE as int)
        }),
{
    lemma_energy_bounds(view, order, ball, floor);
    let pulled = spec_apply_gravity(view, gravity);
    let mid = spec_update_physics(pulled, dt);
    assert(mid.dom() =~= view.dom());
    let f = view[floor];
    assert(gravity_on(f, gravity) == f) by {
        if f.force is Some {
            assert(spec_with_gravity(f.force->0, f.body->0, gravity) == f.force->0);
        }
    }
    assert(pulled[floor] == f);
    assert(physics_on(f, dt) == f) by {
        if f.force is Some {
            assert(spec_integrate(f.transform->0, f.velocity->0, f.force->0, f.body->0, dt) == (
                f.transform->0,
                f.velocity->0,
                f.force->0,
            ));
        }
    }
    let b = view[ball];
    let body = b.body->0;
    let weight = spec_with_gravity(b.force->0, body, gravity);
    assert(gravity.value[0]@ * body.mass@ == 0) by (nonlinear_arith)
        requires
            gravity.value[0]@ == 0,
    ;
    assert(gravity.value[1]@ * body.mass@ == -9_800_000 * 1_000_000) by (nonlinear_arith)
        requires
            gravity.value[1]@ == -9_800_000,
            body.mass@ == 1_000_000,
    ;
    assert(weight.linear[0]@ == 0);
    assert(weight.linear[1]@ == -9_800_000);
    assert(pulled[ball] == Components { force: Some(weight), ..b });
    let pull_x = weight.linear[0].div(body.mass);
    let pull_y = weight.linear[1].div(body.mass);
    assert(pull_x@ == 0);
    assert(pull_y@ == -9_800_000);
    assert(pull_x@ * dt@ == 0) by (nonlinear_arith)
        requires
            pull_x@ == 0,
    ;
    assert(pull_y@ * dt@ == -9_800_000 * 16_667) by (nonlinear_arith)
        requires
            pull_y@ == -9_800_000,
            dt@ == 16_667,
    ;
    assert(pull_x.mul(dt)@ == 0);
    assert(pull_y.mul(dt)@ == -163_336);
    let next = spec_integrate(b.transform->0, b.velocity->0, weight, body, dt);
    let speed = b.velocity->0.linear[1]@ - GAIN;
    assert(next.1.linear[0]@ == 0);
    assert(next.1.linear[1]@ == speed);
    assert(next.1.linear[0]@ * dt@ == 0) by (nonlinear_arith)
        requires
            next.1.linear[0]@ == 0,
    ;
    assert(next.1.linear[1]@ * dt@ == speed * STEP) by (nonlinear_arith)
        requires
            next.1.linear[1]@ == speed,
            dt@ == STEP,
    ;
    assert(-17_000_000 * 16_667 <= speed * STEP <= 17_000_000 * 16_667) by (nonlinear_arith)
        requires
            -17_000_000 <= speed <= 17_000_000,
    ;
    assert(mid[ball] == physics_on(pulled[ball], dt));
}

/// A step of free flight does not raise the energy: the speed becomes
/// `speed`, having been `speed + GAIN`, and the ball moves by `drop`, which is
/// `speed * STEP` rounded toward zero.
proof fn lemma_flight_energy(speed: int, drop: int)
    requires
        drop == trunc_div(speed * STEP, SCALE as int),
    ensures
        STEP * (speed * speed) + WEIGHT * drop <= STEP * ((speed + GAIN) * (speed + GAIN)),
        speed >= 0 ==> 0 <= drop,
        speed <= 0 ==> drop <= 0,
        -SCALE < SCALE * drop - speed * STEP < SCALE,
{
    let square = speed * speed;
    let before = (speed + GAIN) * (speed + GAIN);
    assert(before == square + 326_672 * speed + 26_678_648_896) by (nonlinear_arith)
        requires
            before == (speed + 163_336) * (speed + 163_336),
            square == speed * speed,
    ;
    assert(speed * STEP == 16_667 * speed);
    assert(-1_000_000 < 1_000_000 * drop - 16_667 * speed < 1_000_000);
    assert(16_667 * before == 16_667 * square + 5_444_642_224 * speed + 444_653_041_149_632);
    assert(326_672_000_000 * drop == 326_672 * (1_000_000 * drop));
    assert(16_667 * square + 326_672_000_000 * drop <= 16_667 * before);
}

/// After gravity and integration the ball is over the floor still, with
/// room to be lifted, no more than the slop and one step's fall deep in the
/// floor, and with no more energy than before.
proof fn lemma_flight_keeps(
    view: Map<u64, Components>,
    order: Seq<u64>,
    ball: u64,
    floor: u64,
    gravity: Gravity,
    dt: Scalar,
)
    requires
        in_play(view, order, ball, floor),
        earthly(gravity, dt),
    ensures
        ({
            let mid = spec_update_physics(spec_apply_gravity(view, gravity), dt);
            let speed = view[ball].velocity->0.linear[1]@ - GAIN;
            let drop = trunc_div(speed * STEP, SCALE as int);
            &&& ball_over_floor(mid, order, ball, floor)
            &&& has_headroom(mid, ball)
            &&& sunk(mid, ball, floor) == sunk(view, ball, floor) - drop
            &&& sunk(mid, ball, floor) < 400_000
            &&& shared_restitution(mid, ball, floor) <= 600_000
            &&& STEP * (speed * speed) + WEIGHT * (SLOP - sunk(mid, ball, floor)) <= energy_cap()
        }),
{
    lemma_energy_bounds(view, order, ball, floor);
    lemma_flight(view, order, ball, floor, gravity, dt);
    let mid = spec_update_physics(spec_apply_gravity(view, gravity), dt);
    let speed = view[ball].velocity->0.linear[1]@ - GAIN;
    let drop = trunc_div(speed * STEP, SCALE as int);
    lemma_flight_energy(speed, drop);
    assert(-17_000_000 * 16_667 <= speed * STEP <= 17_000_000 * 16_667) by (nonlinear_arith)
        requires
            -17_000_000 <= speed <= 17_000_000,
    ;
    assert(-283_339 <= drop <= 283_339);
    assert(floor_data(mid, floor) == floor_data(view, floor));
    assert(ball_data(mid, ball).position[0] == ball_data(view, ball).position[0]);
    assert(ball_data(mid, ball).position[1]@ == ball_data(view, ball).position[1]@ + drop);
    assert(ball_data(mid, ball).mass == ball_data(view, ball).mass);
}

/// The lift is at most six fifths of what the penetration exceeds the slop
/// by, and one raw unit.
proof fn lemma_lift_is_small(penetration: int)
    requires
        0 <= penetration,
    ensures
        penetration <= SLOP ==> lift(penetration) == 0,
        penetration > SLOP ==> 5 * lift(penetration) <= 6 * (penetration - SLOP) + 5,
{
    if penetration > SLOP {
        let depth = penetration - SLOP;
        assert(depth * 1_200_000 == 1_200_000 * depth);
    } else {
        assert(0 * 1_200_000 == 0);
    }
}

/// The energy after a landing is within the cap. The ball arrives with the
/// velocity `speed`, having moved by `drop` in the step from a place no
/// deeper than the slop, and is `depth` deep in the floor; it leaves with the
/// velocity `leaving`, which is the bounce speed where it fell at the
/// separating threshold or faster, and `speed` else.
proof fn lemma_landing_energy(speed: int, drop: int, depth: int, restitution: int, leaving: int)
    requires
        -17_000_000 <= speed <= 17_000_000,
        speed >= 0 ==> 0 <= drop,
        -SCALE < SCALE * drop - speed * STEP < SCALE,
        MIN_PENETRATION <= depth < 400_000,
        depth + drop <= SLOP,
        0 <= restitution <= 600_000,
        STEP * (speed * speed) + WEIGHT * (SLOP - depth) <= energy_cap(),
        leaving == (if speed <= SEPARATING_SPEED {
            bounce_speed(restitution, -speed)
        } else {
            speed
        }),
    ensures
        STEP * (leaving * leaving) + WEIGHT * (SLOP - (depth - lift(depth))) <= energy_cap(),
{
    lemma_lift_is_small(depth);
    let rise = lift(depth);
    let height = SLOP - (depth - rise);
    assert(0 <= rise);
    assert(height <= 100_000);
    if speed > 1_000_000 {
        assert(depth <= SLOP);
        assert(rise == 0);
    } else if speed >= -1_000_000 {
        if speed <= SEPARATING_SPEED {
            lemma_bounce_speed(restitution, -speed);
        }
        assert(-1_000_000 <= leaving <= 1_000_000);
        assert(leaving * leaving <= 1_000_000 * 1_000_000) by (nonlinear_arith)
            requires
                -1_000_000 <= leaving <= 1_000_000,
        ;
    } else {
        let fall = -speed;
        lemma_bounce_speed(restitution, fall);
        assert(restitution * fall <= 600_000 * fall) by (nonlinear_arith)
            requires
                restitution <= 600_000,
                fall >= 0,
        ;
        assert(0 <= 5 * leaving <= 3 * fall);
        assert(25 * (leaving * leaving) <= 9 * (fall * fall)) by (nonlinear_arith)
            requires
                0 <= 5 * leaving <= 3 * fall,
        ;
        assert(speed * speed == fall * fall) by (nonlinear_arith)
            requires
                fall == -speed,
        ;
        // what the ball fell in the step bounds how deep it lies
        assert(depth - SLOP <= -drop);
        assert(speed * STEP == 16_667 * speed);
        assert(1_000_000 * (-drop) <= 16_667 * fall + 1_000_000);
        assert(5 * rise <= 6 * (-drop) + 5);
        // the loss of kinetic energy outweighs the lift
        assert(fall * fall >= 1_000_000 * fall) by (nonlinear_arith)
            requires
                fall >= 1_000_000,
        ;
        let lost = 16_667 * (fall * fall) - 16_667 * (leaving * leaving);
        assert(25 * lost >= 266_672 * (fall * fall));
        assert(25 * lost >= 266_672_000_000 * fall);
        let gained = 326_672_000_000 * rise;
        assert(5 * gained <= 326_672 * (6 * (16_667 * fall + 1_000_000) + 5_000_000));
        assert(gained <= lost);
        assert(speed * speed == fall * fall);
        assert(16_667 * (leaving * leaving) + gained <= 16_667 * (speed * speed));
    }
}

/// One fixed step keeps the scene in play, moves the ball straight up or
/// down only, and leaves the floor as it was.
pub proof fn lemma_step_keeps_in_play(
    view: Map<u64, Components>,
    order: Seq<u64>,
    ball: u64,
    floor: u64,
    gravity: Gravity,
    dt: Scalar,
)
    requires
        in_play(view, order, ball, floor),
        earthly(gravity, dt),
    ensures
        ({
            let after = spec_fixed_step(view, order, gravity, dt);
            &&& in_play(after, order, ball, floor)
            &&& after[ball].transform->0.position[0] == view[ball].transform->0.position[0]
            &&& after[floor] == view[floor]
        }),
{
    lemma_energy_bounds(view, order, ball, floor);
    lemma_flight(view, order, ball, floor, gravity, dt);
    lemma_flight_keeps(view, order, ball, floor, gravity, dt);
    let mid = spec_update_physics(spec_apply_gravity(view, gravity), dt);
    let after = spec_collision_system(mid, order);
    assert(after == spec_fixed_step(view, order, gravity, dt));
    lemma_ball_is_lifted_out(mid, order, ball, floor);
    lemma_passes_are_one_pass(mid, order, ball, floor, 8);
    lemma_pass_over_floor(mid, order, ball, floor);
    let speed = view[ball].velocity->0.linear[1]@ - GAIN;
    let drop = trunc_div(speed * STEP, SCALE as int);
    lemma_flight_energy(speed, drop);
    let depth = sunk(mid, ball, floor);
    let restitution = shared_restitution(mid, ball, floor);
    if depth >= MIN_PENETRATION {
        let landed = after_landing(mid[ball], depth, restitution);
        assert(after == mid.insert(ball, landed));
        assert(after[ball] == landed);
        lemma_landed_is_settled(mid, order, ball, floor);
        let leaving = landed.velocity->0.linear[1]@;
        if speed <= SEPARATING_SPEED {
            lemma_bounce_speed(restitution, -speed);
        }
        lemma_landing_energy(speed, drop, depth, restitution, leaving);
        assert(after[ball].velocity->0.linear[0] == mid[ball].velocity->0.linear[0]);
    } else {
        if depth > 0 {
            assert(mid.insert(ball, mid[ball]) =~= mid);
        }
        assert(after == mid);
    }
}

/// No tunnelling. Take the scene in play: a ball of radius one half, mass one
/// and restitution of at most 0.6 over a floor that is not dynamic and is at
/// rest, the ball no higher than fourteen units over where it would lie and
/// at rest, or in any state that the scene reaches from there. Under gravity
/// of 9.8 straight down and steps of a sixtieth of a second, after every
/// number of fixed steps the ball is over the floor and reaches into it by no
/// more than the slop; it has moved straight up and down only, and the floor
/// is as it was.
pub proof fn lemma_ball_never_tunnels(
    view: Map<u64, Components>,
    order: Seq<u64>,
    ball: u64,
    floor: u64,
    gravity: Gravity,
    dt: Scalar,
    steps: nat,
)
    requires
        in_play(view, order, ball, floor),
        earthly(gravity, dt),
    ensures
        ({
            let after = spec_fixed_steps(view, order, gravity, dt, steps);
            &&& in_play(after, order, ball, floor)
            &&& sunk(after, ball, floor) <= SLOP
            &&& after[ball].transform->0.position[0] == view[ball].transform->0.position[0]
            &&& after[ball].velocity->0.linear[0]@ == 0
            &&& after[floor] == view[floor]
        }),
    decreases steps,
{
    if steps > 0 {
        lemma_ball_never_tunnels(view, order, ball, floor, gravity, dt, (steps - 1) as nat);
        let before = spec_fixed_steps(view, order, gravity, dt, (steps - 1) as nat);
        lemma_step_keeps_in_play(before, order, ball, floor, gravity, dt);
        assert(spec_fixed_steps(view, order, gravity, dt, steps) == spec_fixed_step(
            before,
            order,
            gravity,
            dt,
        ));
    }
}

/// No tunnelling, from the start. A ball dropped from rest ten units up
/// onto a floor whose top face lies four and a half units down has, after
/// every number of fixed steps, its lowest point no deeper below that face
/// than the slop; it stays on the line that it was dropped on.
pub proof fn lemma_dropped_ball_never_tunnels(
    view: Map<u64, Components>,
    order: Seq<u64>,
    ball: u64,
    floor: u64,
    gravity: Gravity,
    dt: Scalar,
    steps: nat,
)
    requires
        dropped(view, order, ball, floor),
        earthly(gravity, dt),
    ensures
        ({
            let after = spec_fixed_steps(view, order, gravity, dt, steps)[ball];
            &&& after.transform is Some
            &&& after.velocity is Some
            &&& after.transform->0.position[1]@ - 500_000 >= -4_500_000 - SLOP
            &&& after.transform->0.position[0]@ == 0
            &&& after.velocity->0.linear[0]@ == 0
        }),
{
    lemma_dropped_ball_is_in_play(view, order, ball, floor);
    lemma_ball_never_tunnels(view, order, ball, floor, gravity, dt, steps);
    assert(view[floor].box_collider->0.height.half()@ == 500_000);
}

} // verus!
