use hecs::World;
use pixie::components::{BodyType, CircleCollider, Force, RigidBody, Transform, Velocity};
use pixie::scalar::Scalar;
use pixie::systems::detection::detect_circle_circle;
use pixie::systems::resolution::{
    correction, effective_mass, is_resolvable, kick1, kick2, normal_speed, push1, push2, rebound,
    resolve_collisions, resolve_contact,
};
use pixie::systems::{ColliderType, EntityCollisionData};
use pixie::systems::CollisionInfo;

fn s(micros: i64) -> Scalar {
    Scalar::from_micros(micros)
}

fn contact(kind1: BodyType, kind2: BodyType, mass1: i64, mass2: i64) -> CollisionInfo {
    CollisionInfo {
        entity1: 1,
        entity2: 2,
        normal: [s(1_000_000), s(0)],
        penetration: s(100_000),
        contact_point: [s(500_000), s(0)],
        mass1: s(mass1),
        mass2: s(mass2),
        restitution: s(0),
        body_type1: kind1,
        body_type2: kind2,
    }
}

fn velocity(x: i64, y: i64) -> Velocity {
    Velocity { linear: [s(x), s(y)], angular: s(0) }
}

fn spawn(world: &mut World, x: i64, vx: i64, kind: BodyType, mass: i64) -> hecs::Entity {
    world.spawn((
        Transform { position: [s(x), s(0), s(250_000)], size: [s(1_000_000), s(1_000_000)] },
        RigidBody { body_type: kind, mass: s(mass), restitution: s(0) },
        velocity(vx, 0),
        Force::default(),
        CircleCollider { radius: s(500_000) },
    ))
}

fn id(e: hecs::Entity) -> u64 {
    e.to_bits().get()
}

fn x_of(world: &World, e: hecs::Entity) -> i64 {
    world.get::<&Transform>(e).unwrap().position[0].raw
}

fn vx_of(world: &World, e: hecs::Entity) -> i64 {
    world.get::<&Velocity>(e).unwrap().linear[0].raw
}

#[test]
fn shallow_or_immovable_contacts_are_not_resolved() {
    let mut c = contact(BodyType::Dynamic, BodyType::Dynamic, 1_000_000, 1_000_000);
    assert!(is_resolvable(c));
    c.penetration = s(10);
    assert!(is_resolvable(c));
    c.penetration = s(9);
    assert!(!is_resolvable(c));
    assert!(!is_resolvable(contact(BodyType::Static, BodyType::Static, 1_000_000, 1_000_000)));
    assert!(!is_resolvable(contact(BodyType::Static, BodyType::Kinematic, 1_000_000, 1_000_000)));
    assert!(is_resolvable(contact(BodyType::Static, BodyType::Dynamic, 1_000_000, 1_000_000)));
    assert!(is_resolvable(contact(BodyType::Dynamic, BodyType::Kinematic, 1_000_000, 1_000_000)));
}

#[test]
fn effective_mass_counts_only_dynamic_bodies() {
    // 2 * 4 / (2 + 4) = 1.333333..., rounded away from zero
    let dd = contact(BodyType::Dynamic, BodyType::Dynamic, 2_000_000, 4_000_000);
    assert_eq!(effective_mass(dd), s(1_333_334));
    let ds = contact(BodyType::Dynamic, BodyType::Static, 2_000_000, 4_000_000);
    assert_eq!(effective_mass(ds), s(2_000_000));
    let sd = contact(BodyType::Static, BodyType::Dynamic, 2_000_000, 4_000_000);
    assert_eq!(effective_mass(sd), s(4_000_000));
    let kd = contact(BodyType::Kinematic, BodyType::Dynamic, 2_000_000, 4_000_000);
    assert_eq!(effective_mass(kd), s(4_000_000));
    let ss = contact(BodyType::Static, BodyType::Static, 2_000_000, 4_000_000);
    assert_eq!(effective_mass(ss), s(0));
}

#[test]
fn correction_follows_its_formula() {
    // max(0.1 - 0.0001, 0) * 1.2 / (1 + 1) = 0.05994
    let dd = contact(BodyType::Dynamic, BodyType::Dynamic, 1_000_000, 1_000_000);
    assert_eq!(correction(dd), s(59_940));
    assert_eq!(push1(dd), [s(29_970), s(0)]);
    assert_eq!(push2(dd), [s(29_970), s(0)]);
    // max(0.1 - 0.0001, 0) * 1.2 / (1 / 2) = 0.23976
    let ds = contact(BodyType::Dynamic, BodyType::Static, 2_000_000, 1_000_000);
    assert_eq!(correction(ds), s(239_760));
    assert_eq!(push1(ds), [s(239_760), s(0)]);
    let sd = contact(BodyType::Static, BodyType::Dynamic, 1_000_000, 2_000_000);
    assert_eq!(push2(sd), [s(239_760), s(0)]);
}

#[test]
fn penetration_within_the_slop_is_left_alone() {
    let mut c = contact(BodyType::Dynamic, BodyType::Dynamic, 1_000_000, 1_000_000);
    c.penetration = s(100);
    assert_eq!(correction(c), s(0));
    assert_eq!(push1(c), [s(0), s(0)]);
    c.penetration = s(50);
    assert_eq!(correction(c), s(0));
}

#[test]
fn unequal_masses_share_the_correction_by_inverse_mass() {
    let c = contact(BodyType::Dynamic, BodyType::Dynamic, 1_000_000, 3_000_000);
    // 1 * 3 / (1 + 3) = 0.75; correction = 0.11988 * 0.75 = 0.089910
    assert_eq!(effective_mass(c), s(750_000));
    assert_eq!(correction(c), s(89_910));
    // shares 0.75 and 0.25 of it: 0.0674325 and 0.0224775, rounded away from zero
    assert_eq!(push1(c), [s(67_433), s(0)]);
    assert_eq!(push2(c), [s(22_478), s(0)]);
}

#[test]
fn normal_speed_is_the_relative_velocity_along_the_normal() {
    let mut c = contact(BodyType::Dynamic, BodyType::Dynamic, 1_000_000, 1_000_000);
    assert_eq!(normal_speed(c, velocity(1_000_000, 0), velocity(-1_000_000, 0)), s(-2_000_000));
    assert_eq!(normal_speed(c, velocity(0, 5_000_000), velocity(0, -5_000_000)), s(0));
    c.normal = [s(600_000), s(800_000)];
    assert_eq!(normal_speed(c, velocity(0, 0), velocity(1_000_000, -2_000_000)), s(-1_000_000));
}

#[test]
fn rebound_and_kicks_follow_their_formulas() {
    let mut c = contact(BodyType::Dynamic, BodyType::Dynamic, 1_000_000, 1_000_000);
    let v1 = velocity(1_000_000, 0);
    let v2 = velocity(-1_000_000, 0);
    // -(1 + 0) * -2 = 2, half of it to each body
    assert_eq!(rebound(c, v1, v2), Some(s(2_000_000)));
    assert_eq!(kick1(c, s(2_000_000)), [s(1_000_000), s(0)]);
    assert_eq!(kick2(c, s(2_000_000)), [s(1_000_000), s(0)]);
    c.restitution = s(1_000_000);
    // -(1 + 1) * -2 = 4
    assert_eq!(rebound(c, v1, v2), Some(s(4_000_000)));
    assert_eq!(kick1(c, s(4_000_000)), [s(2_000_000), s(0)]);
    let mut floor = contact(BodyType::Dynamic, BodyType::Static, 1_000_000, 1_000_000);
    floor.normal = [s(0), s(-1_000_000)];
    floor.restitution = s(600_000);
    // -(1.6) * -5 = 8 along (0, -1), all of it to the one dynamic body
    assert_eq!(rebound(floor, velocity(0, -5_000_000), velocity(0, 0)), Some(s(8_000_000)));
    assert_eq!(kick1(floor, s(8_000_000)), [s(0), s(-8_000_000)]);
    let mut heavy = contact(BodyType::Dynamic, BodyType::Dynamic, 2_000_000, 3_000_000);
    heavy.restitution = s(500_000);
    // -(1.5) * -3 = 4.5; shares 3 / 5 and 2 / 5
    assert_eq!(rebound(heavy, velocity(2_000_000, 0), velocity(-1_000_000, 0)), Some(s(4_500_000)));
    assert_eq!(kick1(heavy, s(4_500_000)), [s(2_700_000), s(0)]);
    assert_eq!(kick2(heavy, s(4_500_000)), [s(1_800_000), s(0)]);
}

#[test]
fn separating_pairs_get_no_impulse() {
    let c = contact(BodyType::Dynamic, BodyType::Dynamic, 1_000_000, 1_000_000);
    assert_eq!(rebound(c, velocity(-1_000_000, 0), velocity(1_000_000, 0)), None);
    assert_eq!(rebound(c, velocity(0, 0), velocity(0, 0)), None);
    assert_eq!(rebound(c, velocity(999, 0), velocity(0, 0)), None);
    assert_eq!(rebound(c, velocity(1_000, 0), velocity(0, 0)), Some(s(1_000)));
}

#[test]
fn unequal_masses_share_the_impulse_by_inverse_mass() {
    let mut world = World::new();
    let a = spawn(&mut world, 0, 2_000_000, BodyType::Dynamic, 2_000_000);
    let b = spawn(&mut world, 900_000, -1_000_000, BodyType::Dynamic, 3_000_000);
    let mut c = contact(BodyType::Dynamic, BodyType::Dynamic, 2_000_000, 3_000_000);
    c.entity1 = id(a);
    c.entity2 = id(b);
    c.restitution = s(500_000);
    resolve_contact(&mut world, c);
    assert_eq!(vx_of(&world, a), 2_000_000 - 2_700_000);
    assert_eq!(vx_of(&world, b), -1_000_000 + 1_800_000);
    // momentum 2 * 2 + 3 * -1 is kept
    assert_eq!(2 * vx_of(&world, a) + 3 * vx_of(&world, b), 1_000_000);
}

fn circle_at(entity: hecs::Entity, x: i64, y: i64, mass: i64) -> EntityCollisionData {
    EntityCollisionData {
        entity: id(entity),
        position: [s(x), s(y)],
        mass: s(mass),
        restitution: s(0),
        body_type: BodyType::Dynamic,
        collider: ColliderType::Circle { radius: s(500_000) },
    }
}

fn spawn_at(world: &mut World, x: i64, y: i64, mass: i64) -> hecs::Entity {
    world.spawn((
        Transform { position: [s(x), s(y), s(0)], size: [s(1_000_000), s(1_000_000)] },
        RigidBody { body_type: BodyType::Dynamic, mass: s(mass), restitution: s(0) },
        velocity(0, 0),
        CircleCollider { radius: s(500_000) },
    ))
}

fn place_of(world: &World, e: hecs::Entity) -> (i64, i64) {
    let t = world.get::<&Transform>(e).unwrap();
    (t.position[0].raw, t.position[1].raw)
}

#[test]
fn overlap_just_above_the_slop_still_moves_both_bodies() {
    let mut world = World::new();
    let a = spawn_at(&mut world, 0, 0, 1_000_000);
    let b = spawn_at(&mut world, 999_899, 0, 1_000_000);
    let radius = s(500_000);
    let c = detect_circle_circle(&circle_at(a, 0, 0, 1_000_000), &circle_at(b, 999_899, 0, 1_000_000), radius, radius)
        .unwrap();
    assert_eq!(c.penetration, s(101));
    assert_eq!(correction(c), s(1));
    assert_eq!(push1(c), [s(1), s(0)]);
    assert_eq!(push2(c), [s(1), s(0)]);
    resolve_contact(&mut world, c);
    assert_eq!(place_of(&world, a), (-1, 0));
    assert_eq!(place_of(&world, b), (999_900, 0));
    // at the slop itself nothing moves
    let d = detect_circle_circle(&circle_at(a, 0, 0, 1_000_000), &circle_at(b, 999_900, 0, 1_000_000), radius, radius)
        .unwrap();
    assert_eq!(d.penetration, s(100));
    assert_eq!(push1(d), [s(0), s(0)]);
}

#[test]
fn overlap_just_above_the_slop_moves_heavy_bodies_too() {
    let mut world = World::new();
    let mass = 5_000_000_000_000;
    let a = spawn_at(&mut world, 0, 0, mass);
    let b = spawn_at(&mut world, 999_899, 0, mass);
    let radius = s(500_000);
    let c = detect_circle_circle(&circle_at(a, 0, 0, mass), &circle_at(b, 999_899, 0, mass), radius, radius).unwrap();
    resolve_contact(&mut world, c);
    assert!(place_of(&world, a).0 < 0);
    assert!(place_of(&world, b).0 > 999_899);
    assert_eq!(place_of(&world, a).0 + place_of(&world, b).0, 999_899);
}

#[test]
fn equal_masses_move_by_equal_and_opposite_amounts() {
    let mut world = World::new();
    let a = spawn_at(&mut world, 0, 0, 1_000_000);
    let b = spawn_at(&mut world, 600_000, 700_000, 1_000_000);
    let radius = s(500_000);
    let c = detect_circle_circle(&circle_at(a, 0, 0, 1_000_000), &circle_at(b, 600_000, 700_000, 1_000_000), radius, radius)
        .unwrap();
    assert_eq!(c.normal, [s(650_791), s(759_256)]);
    assert_eq!(c.penetration, s(78_046));
    assert_eq!(push1(c), [s(15_219), s(17_755)]);
    assert_eq!(push2(c), push1(c));
    resolve_contact(&mut world, c);
    let (ax, ay) = place_of(&world, a);
    let (bx, by) = place_of(&world, b);
    assert_eq!((ax, ay), (-15_219, -17_755));
    assert_eq!((bx, by), (615_219, 717_755));
    assert_eq!((ax + bx, ay + by), (600_000, 700_000));
    let before = 600_000i128 * 600_000 + 700_000i128 * 700_000;
    let after = ((bx - ax) as i128).pow(2) + ((by - ay) as i128).pow(2);
    assert!(after > before);
}

#[test]
fn resolving_moves_equal_circles_apart() {
    let mut world = World::new();
    let a = spawn(&mut world, 0, 0, BodyType::Dynamic, 1_000_000);
    let b = spawn(&mut world, 900_000, 0, BodyType::Dynamic, 1_000_000);
    let mut c = contact(BodyType::Dynamic, BodyType::Dynamic, 1_000_000, 1_000_000);
    c.entity1 = id(a);
    c.entity2 = id(b);
    resolve_collisions(&mut world, vec![c]);
    assert_eq!(x_of(&world, a), -29_970);
    assert_eq!(x_of(&world, b), 929_970);
    assert!(x_of(&world, b) - x_of(&world, a) > 900_000);
    assert_eq!(world.get::<&Transform>(a).unwrap().position[2], s(250_000));
    assert_eq!(world.get::<&Transform>(a).unwrap().size, [s(1_000_000), s(1_000_000)]);
    assert_eq!(vx_of(&world, a), 0);
    assert_eq!(vx_of(&world, b), 0);
}

#[test]
fn inelastic_head_on_contact_ends_with_no_closing_speed() {
    let mut world = World::new();
    let a = spawn(&mut world, 0, 1_000_000, BodyType::Dynamic, 1_000_000);
    let b = spawn(&mut world, 900_000, -1_000_000, BodyType::Dynamic, 1_000_000);
    let mut c = contact(BodyType::Dynamic, BodyType::Dynamic, 1_000_000, 1_000_000);
    c.entity1 = id(a);
    c.entity2 = id(b);
    c.restitution = s(0);
    resolve_contact(&mut world, c);
    assert_eq!(vx_of(&world, a), 0);
    assert_eq!(vx_of(&world, b), 0);
}

#[test]
fn elastic_head_on_contact_of_equal_masses_keeps_the_kinetic_energy() {
    let mut world = World::new();
    let a = spawn(&mut world, 0, 1_500_000, BodyType::Dynamic, 1_000_000);
    let b = spawn(&mut world, 900_000, -500_000, BodyType::Dynamic, 1_000_000);
    let mut c = contact(BodyType::Dynamic, BodyType::Dynamic, 1_000_000, 1_000_000);
    c.entity1 = id(a);
    c.entity2 = id(b);
    c.restitution = s(1_000_000);
    resolve_contact(&mut world, c);
    assert_eq!(vx_of(&world, a), -500_000);
    assert_eq!(vx_of(&world, b), 1_500_000);
    let before = 1_500_000i128 * 1_500_000 + 500_000 * 500_000;
    let after = (vx_of(&world, a) as i128).pow(2) + (vx_of(&world, b) as i128).pow(2);
    assert_eq!(before, after);
}

#[test]
fn separating_pair_keeps_its_velocities_but_is_still_corrected() {
    let mut world = World::new();
    let a = spawn(&mut world, 0, -1_000_000, BodyType::Dynamic, 1_000_000);
    let b = spawn(&mut world, 900_000, 2_000_000, BodyType::Dynamic, 1_000_000);
    let mut c = contact(BodyType::Dynamic, BodyType::Dynamic, 1_000_000, 1_000_000);
    c.entity1 = id(a);
    c.entity2 = id(b);
    c.restitution = s(1_000_000);
    resolve_contact(&mut world, c);
    assert_eq!(vx_of(&world, a), -1_000_000);
    assert_eq!(vx_of(&world, b), 2_000_000);
    assert_eq!(x_of(&world, a), -29_970);
    assert_eq!(x_of(&world, b), 929_970);
}

#[test]
fn static_bodies_are_neither_moved_nor_pushed() {
    let mut world = World::new();
    let wall = spawn(&mut world, 0, 0, BodyType::Static, 1_000_000);
    let ball = spawn(&mut world, 900_000, -2_000_000, BodyType::Dynamic, 2_000_000);
    let before = *world.get::<&Transform>(wall).unwrap();
    let mut c = contact(BodyType::Static, BodyType::Dynamic, 1_000_000, 2_000_000);
    c.entity1 = id(wall);
    c.entity2 = id(ball);
    c.restitution = s(500_000);
    resolve_collisions(&mut world, vec![c, c, c]);
    assert_eq!(*world.get::<&Transform>(wall).unwrap(), before);
    assert_eq!(vx_of(&world, wall), 0);
    assert_eq!(x_of(&world, ball), 900_000 + 3 * 239_760);
    // -(1.5) * -2 / 0.5 = 6; 6 / 2 = 3: from -2 to +1, then the pair separates
    assert_eq!(vx_of(&world, ball), 1_000_000);
}

#[test]
fn kinematic_bodies_stand_like_static_ones() {
    let mut world = World::new();
    let platform = spawn(&mut world, 0, 0, BodyType::Kinematic, 1_000_000);
    let ball = spawn(&mut world, 900_000, -2_000_000, BodyType::Dynamic, 1_000_000);
    let mut c = contact(BodyType::Kinematic, BodyType::Dynamic, 1_000_000, 1_000_000);
    c.entity1 = id(platform);
    c.entity2 = id(ball);
    resolve_contact(&mut world, c);
    assert_eq!(x_of(&world, platform), 0);
    assert_eq!(vx_of(&world, platform), 0);
    assert_eq!(x_of(&world, ball), 900_000 + 119_880);
    assert_eq!(vx_of(&world, ball), 0);
}

#[test]
fn missing_components_and_stale_handles_are_passed_over() {
    let mut world = World::new();
    let a = spawn(&mut world, 0, 1_000_000, BodyType::Dynamic, 1_000_000);
    let b = world.spawn((
        Transform { position: [s(900_000), s(0), s(0)], size: [s(1), s(1)] },
        RigidBody { body_type: BodyType::Dynamic, mass: s(1_000_000), restitution: s(0) },
    ));
    let gone = spawn(&mut world, 5_000_000, 0, BodyType::Dynamic, 1_000_000);
    world.despawn(gone).unwrap();
    let mut c = contact(BodyType::Dynamic, BodyType::Dynamic, 1_000_000, 1_000_000);
    c.entity1 = id(a);
    c.entity2 = id(b);
    // the second body has no velocity: positions are corrected, no impulse is exchanged
    resolve_contact(&mut world, c);
    assert_eq!(x_of(&world, a), -29_970);
    assert_eq!(x_of(&world, b), 929_970);
    assert_eq!(vx_of(&world, a), 1_000_000);
    // the second body is gone: only the first is corrected
    c.entity2 = id(gone);
    resolve_contact(&mut world, c);
    assert_eq!(x_of(&world, a), -59_940);
    assert_eq!(vx_of(&world, a), 1_000_000);
    // a handle that never was one
    c.entity1 = 0;
    c.entity2 = 7;
    resolve_contact(&mut world, c);
    assert_eq!(x_of(&world, a), -59_940);
    assert_eq!(x_of(&world, b), 929_970);
}

#[test]
fn contacts_are_resolved_in_list_order() {
    let mut world = World::new();
    let a = spawn(&mut world, 0, 1_000_000, BodyType::Dynamic, 1_000_000);
    let b = spawn(&mut world, 900_000, -1_000_000, BodyType::Dynamic, 1_000_000);
    let mut first = contact(BodyType::Dynamic, BodyType::Dynamic, 1_000_000, 1_000_000);
    first.entity1 = id(a);
    first.entity2 = id(b);
    first.restitution = s(1_000_000);
    let mut second = first;
    second.restitution = s(0);
    // the elastic contact reverses the pair; the inelastic one then finds it separating
    resolve_collisions(&mut world, vec![first, second]);
    assert_eq!((vx_of(&world, a), vx_of(&world, b)), (-1_000_000, 1_000_000));
    assert_eq!((x_of(&world, a), x_of(&world, b)), (-59_940, 959_940));
}
