use hecs::World;
use pixie::components::{BodyType, CircleCollider, Force, RigidBody, Transform, Velocity};
use pixie::fixed_step::{run_frame, FixedStepScheduler, SchedulerState, DEFAULT_FIXED_DT};
use pixie::resources::DeltaTime;
use pixie::scalar::Scalar;
use pixie::systems::Gravity;

fn s(micros: i64) -> Scalar {
    Scalar::from_micros(micros)
}

#[test]
fn a_scheduler_needs_a_positive_step() {
    assert!(FixedStepScheduler::new(s(0)).is_none());
    assert!(FixedStepScheduler::new(s(-1)).is_none());
    let clock = FixedStepScheduler::new(s(1)).unwrap();
    assert_eq!(clock.fixed_dt(), s(1));
    assert_eq!(clock.accumulator(), s(0));
    assert_eq!(clock.state(), SchedulerState::Idle);
    let default = FixedStepScheduler::default();
    assert_eq!(default.fixed_dt(), s(DEFAULT_FIXED_DT));
    assert_eq!(default.fixed_dt(), s(16_667));
}

#[test]
fn frame_time_is_capped_and_handed_out_in_whole_steps() {
    let mut clock = FixedStepScheduler::new(s(16_667)).unwrap();
    assert_eq!(clock.begin_frame(s(10_000)), s(10_000));
    assert_eq!(clock.state(), SchedulerState::Accumulating);
    assert_eq!(clock.next_step(), None);
    assert_eq!(clock.state(), SchedulerState::Idle);
    assert_eq!(clock.accumulator(), s(10_000));
    assert_eq!(clock.begin_frame(s(40_000)), s(40_000));
    assert_eq!(clock.next_step(), Some(DeltaTime(s(16_667))));
    assert_eq!(clock.state(), SchedulerState::Stepping);
    assert_eq!(clock.next_step(), Some(DeltaTime(s(16_667))));
    assert_eq!(clock.next_step(), None);
    assert_eq!(clock.accumulator(), s(50_000 - 2 * 16_667));
    // a stall of five seconds counts as 0.2 s
    assert_eq!(clock.begin_frame(s(5_000_000)), s(200_000));
    let mut steps = 0;
    while clock.next_step().is_some() {
        steps += 1;
    }
    assert_eq!(steps, (16_666 + 200_000) / 16_667);
    assert_eq!(clock.accumulator(), s((16_666 + 200_000) % 16_667));
    assert_eq!(clock.state(), SchedulerState::Idle);
}

#[test]
fn exactly_one_step_length_is_one_step() {
    let mut clock = FixedStepScheduler::new(s(16_667)).unwrap();
    clock.begin_frame(s(16_667));
    assert!(clock.next_step().is_some());
    assert!(clock.next_step().is_none());
    assert_eq!(clock.accumulator(), s(0));
    clock.begin_frame(s(-5));
    assert!(clock.next_step().is_none());
    assert_eq!(clock.accumulator(), s(-5));
}

#[test]
fn a_frame_runs_the_steps_it_owes() {
    let mut world = World::new();
    let ball = world.spawn((
        Transform { position: [s(0), s(10_000_000), s(0)], size: [s(1_000_000), s(1_000_000)] },
        RigidBody { body_type: BodyType::Dynamic, mass: s(1_000_000), restitution: s(600_000) },
        Velocity::default(),
        Force::default(),
        CircleCollider { radius: s(500_000) },
    ));
    let mut clock = FixedStepScheduler::default();
    let (clamped, steps) = run_frame(&mut world, Gravity::default(), &mut clock, s(10_000));
    assert_eq!((clamped, steps), (s(10_000), 0));
    assert_eq!(world.get::<&Transform>(ball).unwrap().position[1], s(10_000_000));
    let (clamped, steps) = run_frame(&mut world, Gravity::default(), &mut clock, s(50_000));
    assert_eq!((clamped, steps), (s(50_000), 3));
    assert_eq!(clock.accumulator(), s(60_000 - 3 * 16_667));
    assert_eq!(clock.state(), SchedulerState::Idle);
    assert_eq!(world.get::<&Velocity>(ball).unwrap().linear[1], s(-490_008));
    assert_eq!(world.get::<&Transform>(ball).unwrap().position[1], s(9_983_668));
    let (clamped, steps) = run_frame(&mut world, Gravity::default(), &mut clock, s(9_000_000));
    assert_eq!((clamped, steps), (s(200_000), 12));
}
