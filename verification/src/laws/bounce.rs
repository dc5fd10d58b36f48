//! A ball that falls onto a floor bounces once and is lifted out of it.

use crate::components::{Components, Transform, Velocity};
use crate::laws::normals::{valid_size, within_extent, EXTENT};
use crate::laws::restitution::moderate;
use crate::scalar::{
    away_div, lemma_sqrt_floor_unique, scalar, sqrt_floor, trunc_div, Scalar, SCALE,
};
use crate::systems::collision_system::{
    box_entries, circle_entries, spec_box_entry, spec_circle_entry, spec_collider_data,
    spec_collision_pass, spec_collision_passes, spec_collision_system,
};
use crate::systems::contact::{
    ColliderType, CollisionInfo, EntityCollisionData, CORRECTION_PERCENT, MIN_PENETRATION,
    SEPARATING_SPEED, SLOP,
};
use crate::systems::detection::{
    contacts_upto, length_squared, row_contacts, spec_detect_circle_box, spec_detect_collision,
    spec_detect_collisions, spec_pair_contact,
};
use crate::systems::resolution::{
    spec_apply_impulse, spec_correct_positions, spec_correction, spec_effective_mass,
    spec_is_resolvable, spec_kick1, spec_moved_back, spec_normal_speed, spec_push1, spec_reach1,
    spec_rebound, spec_resolve_collisions, spec_resolve_contact, spec_resolve_velocities,
    spec_slowed,
};
use crate::world::{spec_rows, view_transform, view_velocity, with_transform, with_velocity};
use vstd::prelude::*;

verus! {

/// How far the centre of the circle lies above the top face of the box, in
/// raw units.
pub open spec fn height_above(
    circle_data: EntityCollisionData,
    box_data: EntityCollisionData,
    box_height: Scalar,
) -> int {
    circle_data.position[1]@ - (box_data.position[1]@ + box_height.half()@)
}

/// Whether the centre of the circle lies above the top face of the box and
/// between its sides.
pub open spec fn stands_above(
    circle_data: EntityCollisionData,
    box_data: EntityCollisionData,
    radius: Scalar,
    box_width: Scalar,
    box_height: Scalar,
) -> bool {
    &&& within_extent(circle_data.position[0])
    &&& within_extent(circle_data.position[1])
    &&& within_extent(box_data.position[0])
    &&& within_extent(box_data.position[1])
    &&& valid_size(radius)
    &&& valid_size(box_width)
    &&& valid_size(box_height)
    &&& -box_width.half()@ <= circle_data.position[0]@ - box_data.position[0]@
        <= box_width.half()@
    &&& height_above(circle_data, box_data, box_height) > 0
}

/// A circle above a box touches it exactly when its centre is less than one
/// radius above the top face. The normal then points straight down and the
/// penetration is what the radius exceeds that height by.
pub proof fn lemma_contact_from_above(
    circle_data: EntityCollisionData,
    box_data: EntityCollisionData,
    radius: Scalar,
    box_width: Scalar,
    box_height: Scalar,
)
    requires
        stands_above(circle_data, box_data, radius, box_width, box_height),
    ensures
        ({
            let gap = height_above(circle_data, box_data, box_height);
            match spec_detect_circle_box(circle_data, box_data, radius, box_width, box_height) {
                Some(c) => {
                    &&& gap < radius@
                    &&& c.normal[0]@ == 0
                    &&& c.normal[1]@ == -SCALE
                    &&& c.penetration@ == radius@ - gap
                    &&& c.entity1 == circle_data.entity
                    &&& c.entity2 == box_data.entity
                    &&& c.mass1 == circle_data.mass
                    &&& c.mass2 == box_data.mass
                    &&& c.body_type1 == circle_data.body_type
                    &&& c.body_type2 == box_data.body_type
                    &&& c.restitution == circle_data.restitution.min(box_data.restitution)
                },
                None => gap >= radius@,
            }
        }),
{
    let gap = height_above(circle_data, box_data, box_height);
    let half_width = box_width.half();
    let half_height = box_height.half();
    let closest_x = circle_data.position[0].sub(box_data.position[0]).max(half_width.neg()).min(
        half_width,
    );
    let closest_y = circle_data.position[1].sub(box_data.position[1]).max(half_height.neg()).min(
        half_height,
    );
    assert(closest_x@ == circle_data.position[0]@ - box_data.position[0]@);
    assert(closest_y@ == half_height@);
    let dx = circle_data.position[0].sub(box_data.position[0].add(closest_x));
    let dy = circle_data.position[1].sub(box_data.position[1].add(closest_y));
    assert(dx@ == 0);
    assert(dy@ == gap);
    let d2 = length_squared(dx, dy);
    assert(d2 == gap * gap) by (nonlinear_arith)
        requires
            d2 == dx@ * dx@ + dy@ * dy@,
            dx@ == 0,
            dy@ == gap,
    ;
    assert(gap * gap < radius@ * radius@ <==> gap < radius@) by (nonlinear_arith)
        requires
            gap > 0,
            radius@ >= 0,
    ;
    assert(d2 > 0) by (nonlinear_arith)
        requires
            d2 == gap * gap,
            gap > 0,
    ;
    if gap < radius@ {
        assert(gap * gap < (gap + 1) * (gap + 1)) by (nonlinear_arith)
            requires
                gap > 0,
        ;
        lemma_sqrt_floor_unique(d2, gap);
        let distance = scalar(sqrt_floor(d2));
        assert(distance@ == gap);
        assert((gap * 1_000_000) / gap == 1_000_000) by (nonlinear_arith)
            requires
                gap > 0,
        ;
        assert(dy.neg()@ == -gap);
        assert(dy.neg()@ * 1_000_000 == -(gap * 1_000_000));
        assert(dx.neg()@ * 1_000_000 == 0);
        assert(0int / gap == 0) by (nonlinear_arith)
            requires
                gap > 0,
        ;
    }
}

/// How far positional correction lifts a body of mass one that lies in a
/// static one by `penetration`: `max(penetration - SLOP, 0) * CORRECTION_PERCENT`,
/// rounded up.
pub open spec fn lift(penetration: int) -> int {
    let depth = if penetration > SLOP {
        penetration - SLOP
    } else {
        0
    };
    away_div(depth * CORRECTION_PERCENT, SCALE as int)
}

/// The upward speed with which a body leaves that arrived falling at `fall`:
/// `(1 + restitution) * fall`, rounded down, less `fall`.
pub open spec fn bounce_speed(restitution: int, fall: int) -> int {
    trunc_div((SCALE + restitution) * fall, SCALE as int) - fall
}

/// Whether the contact is that of a dynamic body of mass one lying on a body
/// that is not dynamic, with the normal pointing straight down.
pub open spec fn lands(c: CollisionInfo) -> bool {
    &&& c.normal[0]@ == 0
    &&& c.normal[1]@ == -SCALE
    &&& c.body_type1.is_dynamic()
    &&& !c.body_type2.is_dynamic()
    &&& c.mass1@ == SCALE
    &&& 0 <= c.restitution@ <= SCALE
    &&& 0 <= c.penetration@ <= EXTENT
}

/// The lift takes a body out of the other but for the slop, and is nothing
/// within the slop.
pub proof fn lemma_lift_clears(penetration: int)
    requires
        0 <= penetration <= EXTENT,
    ensures
        penetration <= SLOP ==> lift(penetration) == 0,
        penetration > SLOP ==> penetration - SLOP < lift(penetration) <= 2 * penetration,
{
    if penetration > SLOP {
        let depth = penetration - SLOP;
        assert(depth * CORRECTION_PERCENT == depth * 1_200_000);
    } else {
        assert(0 * CORRECTION_PERCENT == 0);
    }
}

/// A landing body is pushed straight up by the lift.
pub proof fn lemma_landing_push(c: CollisionInfo)
    requires
        lands(c),
    ensures
        spec_push1(c)[0]@ == 0,
        spec_push1(c)[1]@ == -lift(c.penetration@),
{
    let depth = c.penetration.sub(scalar(SLOP as int)).max(scalar(0));
    let percent = scalar(CORRECTION_PERCENT as int);
    assert(depth@ == if c.penetration@ > SLOP { c.penetration@ - SLOP } else { 0 });
    assert(depth@ * percent@ == depth@ * 1_200_000);
    let excess = depth.mul_away(percent);
    assert(excess@ == lift(c.penetration@));
    assert(spec_effective_mass(c) == c.mass1);
    assert(excess@ * c.mass1@ == excess@ * 1_000_000);
    assert(spec_correction(c)@ == excess@);
    let reach = spec_reach1(c);
    assert(reach@ == excess@);
    assert(c.normal[0]@ * reach@ == 0) by (nonlinear_arith)
        requires
            c.normal[0]@ == 0,
    ;
    assert(c.normal[1]@ * reach@ == -(1_000_000 * reach@)) by (nonlinear_arith)
        requires
            c.normal[1]@ == -1_000_000,
    ;
}

/// A landing body that falls at the separating threshold or faster onto a
/// body at rest leaves with the bounce speed, its sideways speed unchanged;
/// one that falls more slowly gets no impulse.
pub proof fn lemma_landing_kick(c: CollisionInfo, v1: Velocity, v2: Velocity)
    requires
        lands(c),
        moderate(v1),
        v2.linear[0]@ == 0,
        v2.linear[1]@ == 0,
    ensures
        spec_normal_speed(c, v1, v2)@ == v1.linear[1]@,
        v1.linear[1]@ > SEPARATING_SPEED ==> spec_rebound(c, v1, v2) is None,
        v1.linear[1]@ <= SEPARATING_SPEED ==> {
            &&& spec_rebound(c, v1, v2) is Some
            &&& spec_kick1(c, spec_rebound(c, v1, v2)->0)[0]@ == 0
            &&& v1.linear[1]@ - spec_kick1(c, spec_rebound(c, v1, v2)->0)[1]@ == bounce_speed(
                c.restitution@,
                -v1.linear[1]@,
            )
            &&& 0 <= bounce_speed(c.restitution@, -v1.linear[1]@) <= -v1.linear[1]@
        },
{
    let across = v2.linear[0].sub(v1.linear[0]);
    let along = v2.linear[1].sub(v1.linear[1]);
    assert(across@ * c.normal[0]@ == 0) by (nonlinear_arith)
        requires
            c.normal[0]@ == 0,
    ;
    assert(along@ * c.normal[1]@ == 1_000_000 * v1.linear[1]@) by (nonlinear_arith)
        requires
            c.normal[1]@ == -1_000_000,
            along@ == -v1.linear[1]@,
    ;
    let speed = spec_normal_speed(c, v1, v2);
    assert(speed@ == v1.linear[1]@);
    if speed@ <= SEPARATING_SPEED {
        let fall = -speed@;
        let factor = scalar(SCALE as int).add(c.restitution).neg();
        assert(factor@ == -(SCALE + c.restitution@));
        assert(factor@ * speed@ == (SCALE + c.restitution@) * fall) by (nonlinear_arith)
            requires
                factor@ == -(SCALE + c.restitution@),
                fall == -speed@,
        ;
        let product = (SCALE + c.restitution@) * fall;
        assert(1_000_000 * fall <= product <= 2_000_000 * fall) by (nonlinear_arith)
            requires
                product == (SCALE + c.restitution@) * fall,
                0 <= c.restitution@ <= 1_000_000,
                fall > 0,
        ;
        let rebound = factor.mul(speed);
        assert(rebound@ == product / 1_000_000);
        assert(fall <= rebound@ <= 2 * fall);
        assert(spec_rebound(c, v1, v2) == Some(rebound));
        assert(rebound@ * c.normal[0]@ == 0) by (nonlinear_arith)
            requires
                c.normal[0]@ == 0,
        ;
        assert(rebound@ * c.normal[1]@ == -(1_000_000 * rebound@)) by (nonlinear_arith)
            requires
                c.normal[1]@ == -1_000_000,
        ;
    }
}

/// What detection reads of the ball.
pub open spec fn ball_data(view: Map<u64, Components>, ball: u64) -> EntityCollisionData {
    spec_circle_entry(ball, view[ball])->0
}

/// What detection reads of the floor.
pub open spec fn floor_data(view: Map<u64, Components>, floor: u64) -> EntityCollisionData {
    spec_box_entry(floor, view[floor])->0
}

/// Whether the world holds a ball and a floor and nothing else: a dynamic
/// circle of mass one that moves at a moderate velocity, its centre above
/// the top face of a box that is not dynamic and is at rest.
pub open spec fn ball_over_floor(
    view: Map<u64, Components>,
    order: Seq<u64>,
    ball: u64,
    floor: u64,
) -> bool {
    &&& ball != floor
    &&& order.len() == 2
    &&& ((order[0] == ball && order[1] == floor) || (order[0] == floor && order[1] == ball))
    &&& view.dom().contains(ball)
    &&& view.dom().contains(floor)
    &&& spec_circle_entry(ball, view[ball]) is Some
    &&& spec_box_entry(floor, view[floor]) is Some
    &&& view[ball].body->0.body_type.is_dynamic()
    &&& view[ball].body->0.mass@ == SCALE
    &&& 0 <= view[ball].body->0.restitution@ <= SCALE
    &&& view[ball].velocity is Some
    &&& moderate(view[ball].velocity->0)
    &&& !view[floor].body->0.body_type.is_dynamic()
    &&& 0 <= view[floor].body->0.restitution@ <= SCALE
    &&& view[floor].velocity is Some
    &&& view[floor].velocity->0.linear[0]@ == 0
    &&& view[floor].velocity->0.linear[1]@ == 0
    &&& stands_above(
        ball_data(view, ball),
        floor_data(view, floor),
        view[ball].circle->0.radius,
        view[floor].box_collider->0.width,
        view[floor].box_collider->0.height,
    )
}

/// Whether the ball can be lifted by twice its radius without leaving the extent.
pub open spec fn has_headroom(view: Map<u64, Components>, ball: u64) -> bool {
    view[ball].transform->0.position[1]@ + 2 * view[ball].circle->0.radius@ <= EXTENT
}

/// By how much the ball reaches below the top face of the floor; negative
/// while it is clear of the floor.
pub open spec fn sunk(view: Map<u64, Components>, ball: u64, floor: u64) -> int {
    view[ball].circle->0.radius@ - height_above(
        ball_data(view, ball),
        floor_data(view, floor),
        view[floor].box_collider->0.height,
    )
}

/// The smaller of the restitutions of ball and floor.
pub open spec fn shared_restitution(view: Map<u64, Components>, ball: u64, floor: u64) -> int {
    view[ball].body->0.restitution.min(view[floor].body->0.restitution)@
}

/// The ball after a contact with the floor has been resolved: lifted by
/// what the penetration calls for, and bouncing if it was falling at the
/// separating threshold or faster. A ball sunk by less than the smallest
/// penetration that counts is left alone.
pub open spec fn after_landing(b: Components, penetration: int, restitution: int) -> Components {
    let t = b.transform->0;
    let v = b.velocity->0;
    if penetration < MIN_PENETRATION {
        b
    } else {
        let lifted = Transform {
            position: [
                t.position[0],
                scalar(t.position[1]@ + lift(penetration)),
                t.position[2],
            ],
            size: t.size,
        };
        let velocity = if v.linear[1]@ <= SEPARATING_SPEED {
            Velocity {
                linear: [v.linear[0], scalar(bounce_speed(restitution, -v.linear[1]@))],
                angular: v.angular,
            }
        } else {
            v
        };
        Components { transform: Some(lifted), velocity: Some(velocity), ..b }
    }
}

/// Detection sees the ball first and the floor second, whatever their order
/// in the world.
proof fn lemma_scene_bodies(view: Map<u64, Components>, order: Seq<u64>, ball: u64, floor: u64)
    requires
        ball_over_floor(view, order, ball, floor),
    ensures
        spec_collider_data(spec_rows(view, order)) == seq![
            ball_data(view, ball),
            floor_data(view, floor),
        ],
{
    let rows = spec_rows(view, order);
    reveal_with_fuel(circle_entries, 3);
    reveal_with_fuel(box_entries, 3);
    assert(rows[0] == (order[0], view[order[0]]));
    assert(rows[1] == (order[1], view[order[1]]));
    assert(spec_circle_entry(floor, view[floor]) is None);
    assert(spec_box_entry(ball, view[ball]) is None);
    assert(spec_collider_data(rows) =~= seq![ball_data(view, ball), floor_data(view, floor)]);
}

/// The contacts among two bodies are the contact of the one pair, if any.
proof fn lemma_contacts_of_two(first: EntityCollisionData, second: EntityCollisionData)
    ensures
        spec_detect_collisions(seq![first, second]) == (match spec_pair_contact(first, second) {
            Some(c) => seq![c],
            None => Seq::<CollisionInfo>::empty(),
        }),
{
    let data = seq![first, second];
    reveal_with_fuel(contacts_upto, 3);
    reveal_with_fuel(row_contacts, 3);
    assert(data[0] == first && data[1] == second);
    assert(row_contacts(data, 1, 2) =~= Seq::<CollisionInfo>::empty());
    assert(spec_detect_collisions(data) =~= (match spec_pair_contact(first, second) {
        Some(c) => seq![c],
        None => Seq::<CollisionInfo>::empty(),
    }));
}

/// Resolving no contact changes nothing.
proof fn lemma_resolve_nothing(view: Map<u64, Components>)
    ensures
        spec_resolve_collisions(view, Seq::<CollisionInfo>::empty()) == view,
{
}

/// Resolving a list of one contact is resolving that contact.
proof fn lemma_resolve_one(view: Map<u64, Components>, c: CollisionInfo)
    ensures
        spec_resolve_collisions(view, seq![c]) == spec_resolve_contact(view, c),
{
    reveal_with_fuel(spec_resolve_collisions, 3);
    assert(seq![c].drop_last() =~= Seq::<CollisionInfo>::empty());
    assert(seq![c].last() == c);
}

/// Resolving the contact of a landing ball leaves the ball as `after_landing`
/// says and changes nothing else.
proof fn lemma_landing_resolution(
    view: Map<u64, Components>,
    c: CollisionInfo,
    ball: u64,
    floor: u64,
)
    requires
        lands(c),
        c.entity1 == ball,
        c.entity2 == floor,
        ball != floor,
        view.dom().contains(ball),
        view.dom().contains(floor),
        view[ball].transform is Some,
        within_extent(view[ball].transform->0.position[0]),
        within_extent(view[ball].transform->0.position[1]),
        view[ball].velocity is Some,
        moderate(view[ball].velocity->0),
        view[floor].velocity is Some,
        view[floor].velocity->0.linear[0]@ == 0,
        view[floor].velocity->0.linear[1]@ == 0,
    ensures
        spec_resolve_contact(view, c) == view.insert(
            ball,
            after_landing(view[ball], c.penetration@, c.restitution@),
        ),
{
    let b = view[ball];
    let t = b.transform->0;
    let v = b.velocity->0;
    let target = view.insert(ball, after_landing(b, c.penetration@, c.restitution@));
    if !spec_is_resolvable(c) {
        assert(target =~= view);
    } else {
        lemma_landing_push(c);
        lemma_lift_clears(c.penetration@);
        let push = spec_push1(c);
        let moved = spec_moved_back(t, push);
        let lifted = after_landing(b, c.penetration@, c.restitution@).transform->0;
        assert(moved.position =~= lifted.position);
        assert(moved == lifted);
        assert(view_transform(view, ball) == Some(t));
        let first = with_transform(view, ball, moved);
        assert(first == view.insert(ball, Components { transform: Some(moved), ..b }));
        assert(view_transform(first, floor) == view_transform(view, floor));
        assert(spec_correct_positions(view, c) == first);
        assert(view_velocity(first, ball) == Some(v));
        let at_rest = view[floor].velocity->0;
        assert(first[floor] == view[floor]);
        assert(view_velocity(first, floor) == Some(at_rest));
        lemma_landing_kick(c, v, at_rest);
        if v.linear[1]@ <= SEPARATING_SPEED {
            let rebound = spec_rebound(c, v, at_rest)->0;
            let kick = spec_kick1(c, rebound);
            let slowed = spec_slowed(v, kick);
            let bounced = after_landing(b, c.penetration@, c.restitution@).velocity->0;
            assert(slowed.linear =~= bounced.linear);
            assert(slowed == bounced);
            let second = with_velocity(first, ball, slowed);
            assert(view_velocity(second, floor) == Some(at_rest));
            assert(spec_apply_impulse(first, c, rebound) == second);
            assert(spec_resolve_velocities(first, c) == second);
            assert(second =~= target);
        } else {
            assert(spec_resolve_velocities(first, c) == first);
            assert(first =~= target);
        }
    }
}

/// The contact that detection finds between the ball and the floor, if any.
pub open spec fn landing_contact(view: Map<u64, Components>, ball: u64, floor: u64) -> Option<
    CollisionInfo,
> {
    spec_detect_circle_box(
        ball_data(view, ball),
        floor_data(view, floor),
        view[ball].circle->0.radius,
        view[floor].box_collider->0.width,
        view[floor].box_collider->0.height,
    )
}

/// Detection over a ball and a floor finds their one contact, or nothing.
proof fn lemma_scene_detection(
    view: Map<u64, Components>,
    order: Seq<u64>,
    ball: u64,
    floor: u64,
)
    requires
        ball_over_floor(view, order, ball, floor),
    ensures
        spec_detect_collisions(spec_collider_data(spec_rows(view, order))) == (
        match landing_contact(view, ball, floor) {
            Some(c) => seq![c],
            None => Seq::<CollisionInfo>::empty(),
        }),
{
    let bd = ball_data(view, ball);
    let fd = floor_data(view, floor);
    lemma_scene_bodies(view, order, ball, floor);
    lemma_contacts_of_two(bd, fd);
    assert(bd.collider == ColliderType::Circle { radius: view[ball].circle->0.radius });
    assert(fd.collider == ColliderType::Box {
        width: view[floor].box_collider->0.width,
        height: view[floor].box_collider->0.height,
    });
    assert(bd.body_type.is_dynamic());
    assert(spec_pair_contact(bd, fd) == spec_detect_collision(bd, fd));
    assert(spec_detect_collision(bd, fd) == landing_contact(view, ball, floor));
}

/// The ball touches the floor exactly when it reaches below the top face,
/// and the contact is then that of a landing body, as deep as the ball is sunk.
proof fn lemma_scene_contact(view: Map<u64, Components>, order: Seq<u64>, ball: u64, floor: u64)
    requires
        ball_over_floor(view, order, ball, floor),
    ensures
        match landing_contact(view, ball, floor) {
            Some(c) => {
                &&& lands(c)
                &&& c.entity1 == ball
                &&& c.entity2 == floor
                &&& c.penetration@ == sunk(view, ball, floor)
                &&& c.restitution@ == shared_restitution(view, ball, floor)
                &&& sunk(view, ball, floor) > 0
            },
            None => sunk(view, ball, floor) <= 0,
        },
{
    lemma_contact_from_above(
        ball_data(view, ball),
        floor_data(view, floor),
        view[ball].circle->0.radius,
        view[floor].box_collider->0.width,
        view[floor].box_collider->0.height,
    );
}

/// One pass over a ball and a floor: if the ball reaches into the floor, the
/// ball is lifted and bounces as `after_landing` says; else nothing changes.
pub proof fn lemma_pass_over_floor(
    view: Map<u64, Components>,
    order: Seq<u64>,
    ball: u64,
    floor: u64,
)
    requires
        ball_over_floor(view, order, ball, floor),
    ensures
        spec_collision_pass(view, order) == (if sunk(view, ball, floor) > 0 {
            view.insert(
                ball,
                after_landing(
                    view[ball],
                    sunk(view, ball, floor),
                    shared_restitution(view, ball, floor),
                ),
            )
        } else {
            view
        }),
{
    lemma_scene_detection(view, order, ball, floor);
    lemma_scene_contact(view, order, ball, floor);
    match landing_contact(view, ball, floor) {
        Some(c) => {
            lemma_resolve_one(view, c);
            lemma_landing_resolution(view, c, ball, floor);
        },
        None => {
            lemma_resolve_nothing(view);
        },
    }
}

/// The bounce speed is the restitution times the speed of the fall, rounded
/// down by less than one raw unit.
pub proof fn lemma_bounce_speed(restitution: int, fall: int)
    requires
        0 <= restitution <= SCALE,
        0 <= fall,
    ensures
        restitution * fall - SCALE < SCALE * bounce_speed(restitution, fall) <= restitution * fall,
        0 <= bounce_speed(restitution, fall) <= fall,
{
    let product = (SCALE + restitution) * fall;
    assert(product == 1_000_000 * fall + restitution * fall) by (nonlinear_arith)
        requires
            product == (1_000_000 + restitution) * fall,
    ;
    assert(0 <= restitution * fall <= 1_000_000 * fall) by (nonlinear_arith)
        requires
            0 <= restitution <= 1_000_000,
            fall >= 0,
    ;
    assert(trunc_div(product, 1_000_000) == product / 1_000_000);
}

/// A pass leaves alone a ball that is sunk by no more than the slop and does
/// not fall at the separating threshold or faster.
proof fn lemma_settled_pass(view: Map<u64, Components>, order: Seq<u64>, ball: u64, floor: u64)
    requires
        ball_over_floor(view, order, ball, floor),
        sunk(view, ball, floor) <= SLOP,
        view[ball].velocity->0.linear[1]@ > SEPARATING_SPEED,
    ensures
        spec_collision_pass(view, order) == view,
{
    lemma_pass_over_floor(view, order, ball, floor);
    let b = view[ball];
    let depth = sunk(view, ball, floor);
    if depth > 0 {
        let after = after_landing(b, depth, shared_restitution(view, ball, floor));
        if depth >= MIN_PENETRATION {
            lemma_lift_clears(depth);
            assert(after.transform->0.position =~= b.transform->0.position);
        }
        assert(after == b);
        assert(view.insert(ball, after) =~= view);
    }
}

/// After its landing the ball is still over the floor, sunk by no more than
/// the slop, and does not fall at the separating threshold or faster.
pub proof fn lemma_landed_is_settled(
    view: Map<u64, Components>,
    order: Seq<u64>,
    ball: u64,
    floor: u64,
)
    requires
        ball_over_floor(view, order, ball, floor),
        sunk(view, ball, floor) >= MIN_PENETRATION,
        has_headroom(view, ball),
    ensures
        ({
            let landed = view.insert(
                ball,
                after_landing(
                    view[ball],
                    sunk(view, ball, floor),
                    shared_restitution(view, ball, floor),
                ),
            );
            &&& ball_over_floor(landed, order, ball, floor)
            &&& sunk(landed, ball, floor) == sunk(view, ball, floor) - lift(sunk(view, ball, floor))
            &&& sunk(landed, ball, floor) <= SLOP
            &&& landed[ball].velocity->0.linear[1]@ > SEPARATING_SPEED
        }),
{
    let depth = sunk(view, ball, floor);
    let restitution = shared_restitution(view, ball, floor);
    let after = after_landing(view[ball], depth, restitution);
    let landed = view.insert(ball, after);
    lemma_lift_clears(depth);
    if view[ball].velocity->0.linear[1]@ <= SEPARATING_SPEED {
        lemma_bounce_speed(restitution, -view[ball].velocity->0.linear[1]@);
    }
    assert(landed[floor] == view[floor]);
    assert(floor_data(landed, floor) == floor_data(view, floor));
    assert(ball_data(landed, ball).position[0] == ball_data(view, ball).position[0]);
    assert(ball_data(landed, ball).position[1]@ == ball_data(view, ball).position[1]@ + lift(
        depth,
    ));
}

/// What one pass leaves, a second pass leaves alone: the ball is then over
/// the floor still, sunk in it by no more than the slop.
proof fn lemma_one_pass_settles(
    view: Map<u64, Components>,
    order: Seq<u64>,
    ball: u64,
    floor: u64,
)
    requires
        ball_over_floor(view, order, ball, floor),
        has_headroom(view, ball),
    ensures
        ({
            let next = spec_collision_pass(view, order);
            &&& spec_collision_pass(next, order) == next
            &&& ball_over_floor(next, order, ball, floor)
            &&& sunk(next, ball, floor) <= SLOP
        }),
{
    lemma_pass_over_floor(view, order, ball, floor);
    let depth = sunk(view, ball, floor);
    if depth >= MIN_PENETRATION {
        lemma_landed_is_settled(view, order, ball, floor);
        lemma_settled_pass(spec_collision_pass(view, order), order, ball, floor);
    } else {
        if depth > 0 {
            assert(view.insert(ball, view[ball]) =~= view);
        }
    }
}

/// Any number of passes over a ball and a floor, one or more, leaves what the
/// first pass leaves.
pub proof fn lemma_passes_are_one_pass(
    view: Map<u64, Components>,
    order: Seq<u64>,
    ball: u64,
    floor: u64,
    n: nat,
)
    requires
        ball_over_floor(view, order, ball, floor),
        has_headroom(view, ball),
        n >= 1,
    ensures
        spec_collision_passes(view, order, n) == spec_collision_pass(view, order),
    decreases n,
{
    if n == 1 {
        assert(spec_collision_passes(view, order, 0) == view);
        assert(spec_collision_passes(view, order, 1) == spec_collision_pass(
            spec_collision_passes(view, order, 0),
            order,
        ));
    } else {
        lemma_passes_are_one_pass(view, order, ball, floor, (n - 1) as nat);
        lemma_one_pass_settles(view, order, ball, floor);
        assert(spec_collision_passes(view, order, n) == spec_collision_pass(
            spec_collision_passes(view, order, (n - 1) as nat),
            order,
        ));
    }
}

/// No sinking in. Take a world that holds a ball and a floor and nothing
/// else: a dynamic circle of mass one, its centre above the top face of a box
/// that is not dynamic and is at rest. However deep the ball reaches into the
/// floor and however it moves, the collision system leaves it over the floor,
/// sunk in it by no more than the slop; it is not moved sideways, and the
/// floor is as it was.
pub proof fn lemma_ball_is_lifted_out(
    view: Map<u64, Components>,
    order: Seq<u64>,
    ball: u64,
    floor: u64,
)
    requires
        ball_over_floor(view, order, ball, floor),
        has_headroom(view, ball),
    ensures
        ({
            let after = spec_collision_system(view, order);
            &&& ball_over_floor(after, order, ball, floor)
            &&& sunk(after, ball, floor) <= SLOP
            &&& after[ball].transform->0.position[0] == view[ball].transform->0.position[0]
            &&& after[floor] == view[floor]
        }),
{
    lemma_passes_are_one_pass(view, order, ball, floor, 8);
    lemma_one_pass_settles(view, order, ball, floor);
    lemma_pass_over_floor(view, order, ball, floor);
}

/// Bounce. Take a world that holds a ball and a floor and nothing else: a
/// dynamic circle of mass one, its centre above the top face of a box that is
/// not dynamic and is at rest. Let the ball reach into the floor by at least
/// the smallest penetration that counts, and fall at the separating threshold
/// or faster. Then the collision system, for all its passes, applies the
/// impulse once: the ball leaves upward with the restitution times the speed
/// of its fall, rounded down, its sideways speed as it was. It is lifted by
/// what its penetration calls for, and the floor is as it was.
pub proof fn lemma_ball_bounces_once(
    view: Map<u64, Components>,
    order: Seq<u64>,
    ball: u64,
    floor: u64,
)
    requires
        ball_over_floor(view, order, ball, floor),
        has_headroom(view, ball),
        sunk(view, ball, floor) >= MIN_PENETRATION,
        view[ball].velocity->0.linear[1]@ <= SEPARATING_SPEED,
    ensures
        ({
            let after = spec_collision_system(view, order);
            let depth = sunk(view, ball, floor);
            let restitution = shared_restitution(view, ball, floor);
            let fall = -view[ball].velocity->0.linear[1]@;
            &&& after == spec_collision_pass(view, order)
            &&& after == view.insert(ball, after_landing(view[ball], depth, restitution))
            &&& after[floor] == view[floor]
            &&& after[ball].velocity->0.linear[0] == view[ball].velocity->0.linear[0]
            &&& after[ball].velocity->0.linear[1]@ == bounce_speed(restitution, fall)
            &&& restitution * fall - SCALE < SCALE * bounce_speed(restitution, fall)
                <= restitution * fall
            &&& after[ball].velocity->0.angular == view[ball].velocity->0.angular
            &&& after[ball].transform->0.position[0] == view[ball].transform->0.position[0]
            &&& after[ball].transform->0.position[1]@ == view[ball].transform->0.position[1]@
                + lift(depth)
        }),
{
    lemma_passes_are_one_pass(view, order, ball, floor, 8);
    lemma_pass_over_floor(view, order, ball, floor);
    lemma_lift_clears(sunk(view, ball, floor));
    lemma_bounce_speed(
        shared_restitution(view, ball, floor),
        -view[ball].velocity->0.linear[1]@,
    );
}

} // verus!
