use hecs::World;
use pixie::components::{
    Animation, BodyType, BoxCollider, CircleCollider, Components, Force, RigidBody, Sprite,
    Tile, Transform, Velocity,
};
use pixie::fixed_step::fixed_step;
use pixie::resources::{DeltaTime, ResourceContainer};
use pixie::scalar::Scalar;
use pixie::systems::apply_gravity::with_gravity;
use pixie::systems::collision_system::{
    box_entry, circle_entry, collider_data, collision_pass, collision_passes,
};
use pixie::systems::update_animation::{advance_sprite, frame_uv};
use pixie::systems::update_physics::integrate;
use pixie::systems::{
    apply_gravity, apply_gravity_with, collision_system, update_animation, update_animation_with,
    update_camera, update_physics, update_physics_with, ColliderType, Gravity, MissingResource,
};

fn s(micros: i64) -> Scalar {
    Scalar::from_micros(micros)
}

fn body(kind: BodyType, mass: i64, restitution: i64) -> RigidBody {
    RigidBody { body_type: kind, mass: s(mass), restitution: s(restitution) }
}

fn transform(x: i64, y: i64) -> Transform {
    Transform { position: [s(x), s(y), s(500_000)], size: [s(1_000_000), s(1_000_000)] }
}

fn spawn_ball(world: &mut World, x: i64, y: i64) -> hecs::Entity {
    world.spawn((
        transform(x, y),
        body(BodyType::Dynamic, 1_000_000, 600_000),
        Velocity::default(),
        Force::default(),
        CircleCollider { radius: s(500_000) },
    ))
}

fn spawn_floor(world: &mut World) -> hecs::Entity {
    world.spawn((
        Transform { position: [s(0), s(-5_000_000), s(500_000)], size: [s(20_000_000), s(1_000_000)] },
        body(BodyType::Static, 1_000_000_000_000_000, 900_000),
        Velocity::default(),
        Force::default(),
        BoxCollider { width: s(20_000_000), height: s(1_000_000) },
    ))
}

fn y_of(world: &World, e: hecs::Entity) -> i64 {
    world.get::<&Transform>(e).unwrap().position[1].raw
}

fn vy_of(world: &World, e: hecs::Entity) -> i64 {
    world.get::<&Velocity>(e).unwrap().linear[1].raw
}

#[test]
fn gravity_adds_weight_to_dynamic_bodies_only() {
    let g = Gravity::default();
    assert_eq!(g.value, [s(0), s(-9_800_000)]);
    let f = Force { linear: [s(1_000_000), s(2_000_000)], torque: s(3) };
    let heavy = with_gravity(f, body(BodyType::Dynamic, 2_500_000, 0), g);
    assert_eq!(heavy.linear, [s(1_000_000), s(2_000_000 - 24_500_000)]);
    assert_eq!(heavy.torque, s(3));
    assert_eq!(with_gravity(f, body(BodyType::Static, 2_500_000, 0), g), f);
    assert_eq!(with_gravity(f, body(BodyType::Kinematic, 2_500_000, 0), g), f);
}

#[test]
fn gravity_system_reaches_every_entity_with_force_and_body() {
    let mut world = World::new();
    let ball = spawn_ball(&mut world, 0, 10_000_000);
    let floor = spawn_floor(&mut world);
    let no_body = world.spawn((Force::default(), transform(0, 0)));
    let no_force = world.spawn((body(BodyType::Dynamic, 1_000_000, 0), transform(0, 0)));
    apply_gravity_with(&mut world, Gravity { value: [s(1_000_000), s(-9_800_000)] });
    assert_eq!(world.get::<&Force>(ball).unwrap().linear, [s(1_000_000), s(-9_800_000)]);
    assert_eq!(world.get::<&Force>(floor).unwrap().linear, [s(0), s(0)]);
    assert_eq!(world.get::<&Force>(no_body).unwrap().linear, [s(0), s(0)]);
    assert!(world.get::<&Force>(no_force).is_err());
    // a second call in the same step doubles the force
    apply_gravity_with(&mut world, Gravity { value: [s(1_000_000), s(-9_800_000)] });
    assert_eq!(world.get::<&Force>(ball).unwrap().linear, [s(2_000_000), s(-19_600_000)]);
}

#[test]
fn integration_follows_semi_implicit_euler() {
    let t = transform(1_000_000, 2_000_000);
    let v = Velocity { linear: [s(500_000), s(0)], angular: s(7) };
    let f = Force { linear: [s(3_000_000), s(-6_000_000)], torque: s(9) };
    let (t1, v1, f1) = integrate(t, v, f, body(BodyType::Dynamic, 2_000_000, 0), s(100_000));
    // a = (1.5, -3); v = (0.5 + 0.15, -0.3); p = (1 + 0.065, 2 - 0.03)
    assert_eq!(v1.linear, [s(650_000), s(-300_000)]);
    assert_eq!(v1.angular, s(7));
    assert_eq!(t1.position, [s(1_065_000), s(1_970_000), s(500_000)]);
    assert_eq!(t1.size, t.size);
    assert_eq!(f1, Force::default());
    let still = integrate(t, v, f, body(BodyType::Static, 2_000_000, 0), s(100_000));
    assert_eq!(still, (t, v, f));
    let kinematic = integrate(t, v, f, body(BodyType::Kinematic, 2_000_000, 0), s(100_000));
    assert_eq!(kinematic, (t, v, f));
}

#[test]
fn velocity_after_n_steps_is_n_times_the_gain_of_one() {
    let mut t = transform(0, 0);
    let mut v = Velocity::default();
    let f = Force { linear: [s(3_000_000), s(-9_800_000)], torque: s(0) };
    let b = body(BodyType::Dynamic, 2_000_000, 0);
    let dt = s(16_667);
    // (3 / 2) * 0.016667 = 0.025000 and (-9.8 / 2) * 0.016667 = -0.081668, rounded toward zero
    let gain = [25_000i64, -81_668];
    let mut travelled = [0i64, 0];
    for n in 1..=120i64 {
        let next = integrate(t, v, f, b, dt);
        t = next.0;
        v = next.1;
        assert_eq!(next.2, Force::default());
        assert_eq!(v.linear, [s(n * gain[0]), s(n * gain[1])]);
        travelled[0] += (n * gain[0] * 16_667) / 1_000_000;
        travelled[1] += -((n * -gain[1] * 16_667) / 1_000_000);
        assert_eq!(t.position, [s(travelled[0]), s(travelled[1]), s(500_000)]);
    }
}

#[test]
fn the_system_integrates_a_driven_body_from_rest() {
    let mut world = World::new();
    let driven = world.spawn((
        transform(1_000_000, 2_000_000),
        body(BodyType::Dynamic, 2_000_000, 0),
        Velocity { linear: [s(0), s(0)], angular: s(7) },
        Force::default(),
    ));
    let bystander = world.spawn((
        transform(0, 0),
        body(BodyType::Static, 2_000_000, 0),
        Velocity::default(),
        Force::default(),
    ));
    let gain = [25_000i64, -81_668];
    let rounds = 90i64;
    for _ in 0..rounds {
        world.get::<&mut Force>(driven).unwrap().linear = [s(3_000_000), s(-9_800_000)];
        update_physics_with(&mut world, DeltaTime(s(16_667)));
    }
    let v = *world.get::<&Velocity>(driven).unwrap();
    assert_eq!(v.linear, [s(rounds * gain[0]), s(rounds * gain[1])]);
    assert_eq!(v.angular, s(7));
    let t = *world.get::<&Transform>(driven).unwrap();
    // gain * dt * n * (n + 1) / 2, less the rounding of each step
    let exact_x = gain[0] * 16_667 * rounds * (rounds + 1) / 2;
    let exact_y = gain[1] * 16_667 * rounds * (rounds + 1) / 2;
    let moved = [t.position[0].raw - 1_000_000, t.position[1].raw - 2_000_000];
    assert!((moved[0] * 1_000_000 - exact_x).abs() <= rounds * 1_000_000);
    assert!((moved[1] * 1_000_000 - exact_y).abs() <= rounds * 1_000_000);
    assert_eq!(moved[0], 1_706_241);
    assert_eq!(t.position[2], s(500_000));
    assert_eq!(*world.get::<&Transform>(bystander).unwrap(), transform(0, 0));
    assert_eq!(*world.get::<&Force>(driven).unwrap(), Force::default());
}

#[test]
fn physics_system_integrates_and_clears_forces() {
    let mut world = World::new();
    let ball = spawn_ball(&mut world, 0, 10_000_000);
    let floor = spawn_floor(&mut world);
    let partial = world.spawn((
        transform(0, 0),
        body(BodyType::Dynamic, 1_000_000, 0),
        Force { linear: [s(5), s(5)], torque: s(0) },
    ));
    *world.get::<&mut Force>(floor).unwrap() = Force { linear: [s(1), s(2)], torque: s(3) };
    apply_gravity_with(&mut world, Gravity::default());
    update_physics_with(&mut world, DeltaTime(s(16_667)));
    assert_eq!(vy_of(&world, ball), -163_336);
    assert_eq!(y_of(&world, ball), 10_000_000 - 2_722);
    assert_eq!(*world.get::<&Force>(ball).unwrap(), Force::default());
    // a static body keeps even the force put on it
    assert_eq!(*world.get::<&Force>(floor).unwrap(), Force { linear: [s(1), s(2)], torque: s(3) });
    assert_eq!(y_of(&world, floor), -5_000_000);
    // without a velocity the entity is not integrated and its force stays
    assert_eq!(world.get::<&Force>(partial).unwrap().linear, [s(5), s(5 - 9_800_000)]);
    assert_eq!(y_of(&world, partial), 0);
}

#[test]
fn systems_read_their_resources_and_report_missing_ones() {
    let mut world = World::new();
    let ball = spawn_ball(&mut world, 0, 10_000_000);
    let mut resources = ResourceContainer::new();
    assert_eq!(apply_gravity(&mut world, &mut resources), Err(MissingResource::Gravity));
    assert_eq!(update_physics(&mut world, &mut resources), Err(MissingResource::DeltaTime));
    assert_eq!(update_animation(&mut world, &mut resources), Err(MissingResource::DeltaTime));
    assert_eq!(*world.get::<&Force>(ball).unwrap(), Force::default());
    assert_eq!(y_of(&world, ball), 10_000_000);
    resources.insert(Gravity { value: [s(0), s(-2_000_000)] });
    resources.insert(DeltaTime(s(500_000)));
    assert_eq!(apply_gravity(&mut world, &mut resources), Ok(()));
    assert_eq!(world.get::<&Force>(ball).unwrap().linear, [s(0), s(-2_000_000)]);
    assert_eq!(update_physics(&mut world, &mut resources), Ok(()));
    assert_eq!(vy_of(&world, ball), -1_000_000);
    assert_eq!(y_of(&world, ball), 9_500_000);
    assert_eq!(update_animation(&mut world, &mut resources), Ok(()));
    update_camera(&mut world, &mut resources);
    collision_system(&mut world, &mut resources);
    assert_eq!(y_of(&world, ball), 9_500_000);
    assert!(resources.contains::<Gravity>());
    assert!(resources.contains::<DeltaTime>());
}

#[test]
fn colliders_are_gathered_circles_first() {
    let t = transform(1, 2);
    let b = body(BodyType::Dynamic, 3, 4);
    let base = Components {
        transform: Some(t),
        velocity: None,
        force: None,
        body: Some(b),
        circle: None,
        box_collider: None,
    };
    let circle = Components { circle: Some(CircleCollider { radius: s(5) }), ..base };
    let boxed = Components { box_collider: Some(BoxCollider { width: s(6), height: s(7) }), ..base };
    let both = Components { circle: circle.circle, box_collider: boxed.box_collider, ..base };
    let no_body = Components { body: None, ..circle };
    let no_transform = Components { transform: None, ..boxed };
    let rows = vec![(1, boxed), (2, circle), (3, both), (4, base), (5, no_body), (6, no_transform), (7, circle)];
    let data = collider_data(&rows);
    let ids: Vec<u64> = data.iter().map(|d| d.entity).collect();
    assert_eq!(ids, vec![2, 7, 1]);
    assert_eq!(data[0].collider, ColliderType::Circle { radius: s(5) });
    assert_eq!(data[2].collider, ColliderType::Box { width: s(6), height: s(7) });
    assert_eq!(data[0].position, [s(1), s(2)]);
    assert_eq!((data[0].mass, data[0].restitution, data[0].body_type), (s(3), s(4), BodyType::Dynamic));
    assert!(circle_entry(3, both).is_none());
    assert!(box_entry(3, both).is_none());
    assert!(circle_entry(1, boxed).is_none());
    assert!(box_entry(2, circle).is_none());
}

#[test]
fn collision_pass_separates_overlapping_balls() {
    let mut world = World::new();
    let a = spawn_ball(&mut world, 0, 0);
    let b = spawn_ball(&mut world, 900_000, 0);
    let far = spawn_ball(&mut world, 50_000_000, 0);
    collision_pass(&mut world);
    let xa = world.get::<&Transform>(a).unwrap().position[0].raw;
    let xb = world.get::<&Transform>(b).unwrap().position[0].raw;
    assert_eq!((xa, xb), (-29_970, 929_970));
    assert_eq!(world.get::<&Transform>(far).unwrap().position[0].raw, 50_000_000);
    // each further pass works on what the one before left
    collision_passes(&mut world, 2);
    let xa2 = world.get::<&Transform>(a).unwrap().position[0].raw;
    let xb2 = world.get::<&Transform>(b).unwrap().position[0].raw;
    assert!(xb2 - xa2 > xb - xa);
    assert!(xb2 - xa2 <= 1_000_000 + 60_000);
    collision_passes(&mut world, 0);
    assert_eq!(world.get::<&Transform>(a).unwrap().position[0].raw, xa2);
}

#[test]
fn an_entity_with_both_shapes_takes_no_part() {
    let mut world = World::new();
    let odd = world.spawn((
        transform(0, 0),
        body(BodyType::Dynamic, 1_000_000, 0),
        Velocity::default(),
        CircleCollider { radius: s(500_000) },
        BoxCollider { width: s(1_000_000), height: s(1_000_000) },
    ));
    let ball = spawn_ball(&mut world, 400_000, 0);
    let mut resources = ResourceContainer::new();
    collision_system(&mut world, &mut resources);
    assert_eq!(*world.get::<&Transform>(odd).unwrap(), transform(0, 0));
    assert_eq!(*world.get::<&Transform>(ball).unwrap(), transform(400_000, 0));
}

#[test]
fn a_falling_ball_bounces_off_the_floor_and_never_tunnels() {
    let mut world = World::new();
    let ball = spawn_ball(&mut world, 0, 10_000_000);
    let floor = spawn_floor(&mut world);
    let floor_before = *world.get::<&Transform>(floor).unwrap();
    let floor_top = -5_000_000 + 500_000;
    let mut bounce = None;
    for step in 1..=400 {
        let before = vy_of(&world, ball);
        fixed_step(&mut world, Gravity::default(), DeltaTime(s(16_667)));
        let after = vy_of(&world, ball);
        // the ball's lowest point stays above the floor, up to the tolerated penetration
        assert!(y_of(&world, ball) - 500_000 >= floor_top - 100, "tunnelled at step {}", step);
        assert_eq!(world.get::<&Transform>(ball).unwrap().position[0], s(0));
        assert_eq!(world.get::<&Velocity>(ball).unwrap().linear[0], s(0));
        assert_eq!(*world.get::<&Transform>(floor).unwrap(), floor_before);
        assert_eq!(*world.get::<&Velocity>(floor).unwrap(), Velocity::default());
        if bounce.is_none() && before < 0 && after > 0 {
            bounce = Some((step, before, after));
        }
    }
    let (step, before, after) = bounce.unwrap();
    assert_eq!(step, 101);
    assert_eq!(before, -16_333_600);
    // impact speed is the speed after this step's gravity: 16.3336 + 0.163336
    let impact = 16_333_600 + 163_336;
    assert_eq!(after, 9_898_161);
    assert!((after * 10 - impact * 6).abs() < 10);
}

fn landing_world(y: i64, vy: i64) -> (World, hecs::Entity, hecs::Entity) {
    let mut world = World::new();
    let floor = spawn_floor(&mut world);
    let ball = spawn_ball(&mut world, 0, y);
    world.get::<&mut Velocity>(ball).unwrap().linear = [s(250_000), s(vy)];
    (world, ball, floor)
}

#[test]
fn the_collision_system_applies_the_impulse_once() {
    // the ball reaches 0.1 into the floor and falls at 5
    let (mut world, ball, floor) = landing_world(-4_100_000, -5_000_000);
    let floor_before = *world.get::<&Transform>(floor).unwrap();
    let mut resources = ResourceContainer::new();
    collision_system(&mut world, &mut resources);
    // (1 + 0.6) * 5 - 5 = 3 upward; sideways as before
    assert_eq!(world.get::<&Velocity>(ball).unwrap().linear, [s(250_000), s(3_000_000)]);
    // lifted by (0.1 - 0.0001) * 1.2 = 0.11988
    assert_eq!(*world.get::<&Transform>(ball).unwrap(), transform(0, -4_100_000 + 119_880));
    assert_eq!(*world.get::<&Transform>(floor).unwrap(), floor_before);
    assert_eq!(*world.get::<&Velocity>(floor).unwrap(), Velocity::default());
    // one pass alone leaves the same world
    let (mut once, ball_once, _) = landing_world(-4_100_000, -5_000_000);
    collision_passes(&mut once, 1);
    assert_eq!(
        *once.get::<&Velocity>(ball_once).unwrap(),
        *world.get::<&Velocity>(ball).unwrap()
    );
    assert_eq!(
        *once.get::<&Transform>(ball_once).unwrap(),
        *world.get::<&Transform>(ball).unwrap()
    );
}

#[test]
fn a_ball_that_sinks_slowly_is_lifted_and_not_bounced() {
    let (mut world, ball, _) = landing_world(-4_000_500, -999);
    let mut resources = ResourceContainer::new();
    collision_system(&mut world, &mut resources);
    assert_eq!(world.get::<&Velocity>(ball).unwrap().linear, [s(250_000), s(-999)]);
    // sunk by 0.0005: lifted by (0.0005 - 0.0001) * 1.2 = 0.00048, which leaves 0.00002
    assert_eq!(*world.get::<&Transform>(ball).unwrap(), transform(0, -4_000_020));
}

#[test]
fn a_ball_within_the_slop_bounces_where_it_is() {
    let (mut world, ball, _) = landing_world(-4_000_050, -2_000_001);
    let mut resources = ResourceContainer::new();
    collision_system(&mut world, &mut resources);
    // (1.6 * 2.000001) rounded down, less 2.000001
    assert_eq!(world.get::<&Velocity>(ball).unwrap().linear, [s(250_000), s(1_200_000)]);
    assert_eq!(*world.get::<&Transform>(ball).unwrap(), transform(0, -4_000_050));
}

#[test]
fn frames_map_to_texture_coordinates() {
    assert_eq!(frame_uv(0, 4, 2), [s(0), s(250_000), s(0), s(500_000)]);
    assert_eq!(frame_uv(5, 4, 2), [s(250_000), s(500_000), s(500_000), s(1_000_000)]);
    assert_eq!(frame_uv(2, 3, 1), [s(666_666), s(1_000_000), s(0), s(1_000_000)]);
    assert_eq!(frame_uv(1, 1, 0), [s(0), s(1_000_000), s(0), s(0)]);
}

fn animation(frame: u32, count: u32, elapsed: i64, looping: bool) -> Animation {
    Animation {
        current_frame: frame,
        frame_count: count,
        frame_duration: s(100_000),
        elapsed_time: s(elapsed),
        loop_animation: looping,
        finished: false,
        atlas_columns: 2,
        atlas_rows: 2,
    }
}

#[test]
fn animations_advance_loop_and_finish() {
    let uv = [s(1), s(2), s(3), s(4)];
    // not yet due: only the time moves
    let waiting = advance_sprite(Sprite { uv, animation: animation(0, 4, 30_000, true) }, s(50_000));
    assert_eq!(waiting.uv, uv);
    assert_eq!(waiting.animation, animation(0, 4, 80_000, true));
    // due: next frame, time starts over
    let next = advance_sprite(Sprite { uv, animation: animation(0, 4, 60_000, true) }, s(50_000));
    assert_eq!(next.animation, animation(1, 4, 0, true));
    assert_eq!(next.uv, [s(500_000), s(1_000_000), s(0), s(500_000)]);
    // past the last frame a looping animation starts over
    let wrapped = advance_sprite(Sprite { uv, animation: animation(3, 4, 99_999, true) }, s(1));
    assert_eq!(wrapped.animation, animation(0, 4, 0, true));
    assert_eq!(wrapped.uv, [s(0), s(500_000), s(0), s(500_000)]);
    // one that does not loop stays on its last frame, finished, tile untouched
    let done = advance_sprite(Sprite { uv, animation: animation(3, 4, 99_999, false) }, s(1));
    assert_eq!(done.uv, uv);
    assert_eq!(done.animation, Animation { finished: true, ..animation(3, 4, 0, false) });
    // and then no longer changes
    assert_eq!(advance_sprite(done, s(1_000_000)), done);
    // a finished animation that loops still runs
    let revived = advance_sprite(
        Sprite { uv, animation: Animation { finished: true, ..animation(1, 4, 0, true) } },
        s(100_000),
    );
    assert_eq!(revived.animation.current_frame, 2);
    // no columns: the tile is left alone
    let flat = advance_sprite(
        Sprite { uv, animation: Animation { atlas_columns: 0, ..animation(0, 4, 0, true) } },
        s(100_000),
    );
    assert_eq!(flat.uv, uv);
    assert_eq!(flat.animation.current_frame, 1);
    // no frames at all
    let empty = advance_sprite(Sprite { uv, animation: animation(0, 0, 0, false) }, s(100_000));
    assert_eq!(empty.animation.current_frame, 0);
    assert!(empty.animation.finished);
    let top = advance_sprite(Sprite { uv, animation: animation(u32::MAX, u32::MAX, 0, true) }, s(100_000));
    assert_eq!(top.animation.current_frame, 0);
}

#[test]
fn animation_system_reaches_entities_with_tile_and_animation() {
    let mut world = World::new();
    let uv = [s(0), s(1_000_000), s(0), s(1_000_000)];
    let sprite = world.spawn((
        Tile { uv, atlas: "ball".to_string() },
        animation(0, 4, 0, true),
        transform(3, 4),
    ));
    let tile_only = world.spawn((Tile { uv, atlas: "box".to_string() },));
    let animation_only = world.spawn((animation(0, 4, 0, true),));
    update_animation_with(&mut world, DeltaTime(s(100_000)));
    assert_eq!(world.get::<&Tile>(sprite).unwrap().uv, [s(500_000), s(1_000_000), s(0), s(500_000)]);
    assert_eq!(world.get::<&Tile>(sprite).unwrap().atlas, "ball");
    assert_eq!(*world.get::<&Animation>(sprite).unwrap(), animation(1, 4, 0, true));
    assert_eq!(*world.get::<&Transform>(sprite).unwrap(), transform(3, 4));
    assert_eq!(world.get::<&Tile>(tile_only).unwrap().uv, uv);
    assert_eq!(*world.get::<&Animation>(animation_only).unwrap(), animation(0, 4, 0, true));
}
