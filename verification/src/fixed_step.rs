//! The fixed-step scheduler: frames of any length in, steps of one length out.
//!
//! Each frame hands the scheduler the time that has passed. The scheduler caps
//! it, adds it to what was left over, and owes one physics step for every whole
//! step length it then holds. Physics therefore always advances by the same
//! amount of time, however unevenly frames arrive.

use crate::components::Components;
use crate::resources::delta_time::DeltaTime;
use crate::scalar::{scalar, Scalar};
use crate::systems::apply_gravity::{apply_gravity_with, spec_apply_gravity, Gravity};
use crate::systems::collision_system::{collision_passes, spec_collision_system};
use crate::systems::contact::ITERATIONS;
use crate::systems::update_physics::{spec_update_physics, update_physics_with};
use crate::world::{world_order, world_view};
use hecs::World;
use vstd::prelude::*;

verus! {

/// Longest frame time that is taken into account, in raw units of a second.
pub const MAX_FRAME_TIME: i64 = 200_000;

/// The default step length, one sixtieth of a second, in raw units of a second.
pub const DEFAULT_FIXED_DT: i64 = 16_667;

/// Where the scheduler stands within a frame.
#[derive(Debug, Clone, Copy, PartialEq, Eq, Structural)]
pub enum SchedulerState {
    /// Between frames: every owed step has been handed out.
    Idle,
    /// The frame's time has been added and no step of it has been handed out yet.
    Accumulating,
    /// A step has been handed out and is being run.
    Stepping,
}

/// Accumulates frame time and hands it out in steps of a fixed length.
#[derive(Debug, Clone, Copy, PartialEq, Eq)]
pub struct FixedStepScheduler {
    state: SchedulerState,
    accumulator: Scalar,
    fixed_dt: Scalar,
}

/// The frame time that counts: at most `MAX_FRAME_TIME`.
pub open spec fn spec_clamped_elapsed(elapsed: Scalar) -> Scalar {
    elapsed.min(scalar(MAX_FRAME_TIME as int))
}

/// How many whole steps of length `dt` fit into `time`.
pub open spec fn steps_owed(time: int, dt: int) -> nat
    recommends
        dt > 0,
{
    if time < dt || dt <= 0 {
        0
    } else {
        (time / dt) as nat
    }
}

/// What is left of `time` once every whole step of length `dt` is taken out.
pub open spec fn time_left(time: int, dt: int) -> int
    recommends
        dt > 0,
{
    time - steps_owed(time, dt) * dt
}

impl FixedStepScheduler {
    #[verifier::type_invariant]
    spec fn positive_step(self) -> bool {
        self.fixed_dt@ > 0
    }

    /// Where the scheduler stands within a frame.
    pub closed spec fn spec_state(self) -> SchedulerState {
        self.state
    }

    /// Time held that has not been handed out as steps yet.
    pub closed spec fn spec_accumulator(self) -> Scalar {
        self.accumulator
    }

    /// The length of every step.
    pub closed spec fn spec_fixed_dt(self) -> Scalar {
        self.fixed_dt
    }

    /// A scheduler with the given step length and nothing accumulated, or
    /// `None` unless the step length is positive.
    pub fn new(fixed_dt: Scalar) -> (r: Option<FixedStepScheduler>)
        ensures
            r is Some <==> fixed_dt@ > 0,
            r is Some ==> r->0.spec_fixed_dt() == fixed_dt && r->0.spec_accumulator()@ == 0
                && r->0.spec_state() == SchedulerState::Idle,
    {
        if fixed_dt.raw > 0 {
            Some(
                FixedStepScheduler {
                    state: SchedulerState::Idle,
                    accumulator: Scalar::zero(),
                    fixed_dt,
                },
            )
        } else {
            None
        }
    }

    /// Where the scheduler stands within a frame.
    #[verifier::when_used_as_spec(spec_state)]
    pub fn state(self) -> (s: SchedulerState)
        ensures
            s == self.spec_state(),
    {
        self.state
    }

    /// Time held that has not been handed out as steps yet.
    #[verifier::when_used_as_spec(spec_accumulator)]
    pub fn accumulator(self) -> (a: Scalar)
        ensures
            a == self.spec_accumulator(),
    {
        self.accumulator
    }

    /// The length of every step; always positive.
    #[verifier::when_used_as_spec(spec_fixed_dt)]
    pub fn fixed_dt(self) -> (dt: Scalar)
        ensures
            dt == self.spec_fixed_dt(),
            dt@ > 0,
    {
        proof {
            use_type_invariant(self);
        }
        self.fixed_dt
    }

    /// Starts a frame: caps the elapsed time at `MAX_FRAME_TIME`, adds it to the
    /// accumulator and returns the capped time, which is what the per-frame
    /// update of the application is to be given.
    pub fn begin_frame(&mut self, elapsed: Scalar) -> (clamped: Scalar)
        ensures
            clamped == spec_clamped_elapsed(elapsed),
            final(self).spec_accumulator() == old(self).spec_accumulator().add(clamped),
            final(self).spec_fixed_dt() == old(self).spec_fixed_dt(),
            final(self).spec_state() == SchedulerState::Accumulating,
    {
        proof {
            use_type_invariant(&*self);
        }
        let clamped = elapsed.min(Scalar::from_micros(MAX_FRAME_TIME));
        self.accumulator = self.accumulator.add(clamped);
        self.state = SchedulerState::Accumulating;
        clamped
    }

    /// Hands out the next step if a whole step length is held: the step length
    /// leaves the accumulator and is returned. Otherwise the frame is over and
    /// the scheduler is idle.
    pub fn next_step(&mut self) -> (step: Option<DeltaTime>)
        ensures
            final(self).spec_fixed_dt() == old(self).spec_fixed_dt(),
            old(self).spec_accumulator()@ >= old(self).spec_fixed_dt()@ ==> step == Some(
                DeltaTime(old(self).spec_fixed_dt()),
            ) && final(self).spec_accumulator() == old(self).spec_accumulator().sub(
                old(self).spec_fixed_dt(),
            ) && final(self).spec_state() == SchedulerState::Stepping,
            old(self).spec_accumulator()@ < old(self).spec_fixed_dt()@ ==> step is None
                && final(self).spec_accumulator() == old(self).spec_accumulator()
                && final(self).spec_state() == SchedulerState::Idle,
    {
        proof {
            use_type_invariant(&*self);
        }
        if self.accumulator.raw >= self.fixed_dt.raw {
            self.accumulator = self.accumulator.sub(self.fixed_dt);
            self.state = SchedulerState::Stepping;
            Some(DeltaTime(self.fixed_dt))
        } else {
            self.state = SchedulerState::Idle;
            None
        }
    }
}

impl Default for FixedStepScheduler {
    fn default() -> (s: FixedStepScheduler)
        ensures
            s.spec_fixed_dt()@ == DEFAULT_FIXED_DT,
            s.spec_accumulator()@ == 0,
            s.spec_state() == SchedulerState::Idle,
    {
        FixedStepScheduler {
            state: SchedulerState::Idle,
            accumulator: Scalar::zero(),
            fixed_dt: Scalar { raw: DEFAULT_FIXED_DT },
        }
    }
}

/// The world after one fixed step: gravity, then integration, then the
/// collision system.
pub open spec fn spec_fixed_step(
    view: Map<u64, Components>,
    order: Seq<u64>,
    gravity: Gravity,
    dt: Scalar,
) -> Map<u64, Components> {
    spec_collision_system(spec_update_physics(spec_apply_gravity(view, gravity), dt), order)
}

/// The world after `n` fixed steps, one after another.
pub open spec fn spec_fixed_steps(
    view: Map<u64, Components>,
    order: Seq<u64>,
    gravity: Gravity,
    dt: Scalar,
    n: nat,
) -> Map<u64, Components>
    decreases n,
{
    if n == 0 {
        view
    } else {
        spec_fixed_step(spec_fixed_steps(view, order, gravity, dt, (n - 1) as nat), order, gravity, dt)
    }
}

/// Advances the world by one fixed step: gravity is accumulated, every dynamic
/// body is integrated, and collisions are detected and resolved, in that order.
pub fn fixed_step(world: &mut World, gravity: Gravity, dt: DeltaTime)
    ensures
        world_view(*final(world)) == spec_fixed_step(
            world_view(*old(world)),
            world_order(*old(world)),
            gravity,
            dt.0,
        ),
        world_order(*final(world)) == world_order(*old(world)),
{
    apply_gravity_with(world, gravity);
    update_physics_with(world, dt);
    collision_passes(world, ITERATIONS);
}

/// Runs one frame of physics: starts the frame with the elapsed time, then
/// runs one fixed step for every whole step length that the scheduler holds.
/// Returns the capped elapsed time and the number of steps run.
pub fn run_frame(
    world: &mut World,
    gravity: Gravity,
    scheduler: &mut FixedStepScheduler,
    elapsed: Scalar,
) -> (r: (Scalar, u64))
    ensures
        r.0 == spec_clamped_elapsed(elapsed),
        r.1 as nat == steps_owed(
            old(scheduler).spec_accumulator().add(r.0)@,
            old(scheduler).spec_fixed_dt()@,
        ),
        final(scheduler).spec_fixed_dt() == old(scheduler).spec_fixed_dt(),
        final(scheduler).spec_accumulator()@ == time_left(
            old(scheduler).spec_accumulator().add(r.0)@,
            old(scheduler).spec_fixed_dt()@,
        ),
        final(scheduler).spec_state() == SchedulerState::Idle,
        world_view(*final(world)) == spec_fixed_steps(
            world_view(*old(world)),
            world_order(*old(world)),
            gravity,
            old(scheduler).spec_fixed_dt(),
            r.1 as nat,
        ),
        world_order(*final(world)) == world_order(*old(world)),
{
    let clamped = scheduler.begin_frame(elapsed);
    let ghost total = scheduler.spec_accumulator()@;
    let ghost dt = scheduler.spec_fixed_dt()@;
    let step_length = scheduler.fixed_dt();
    let mut steps: u64 = 0;
    loop
        invariant
            dt > 0,
            dt == scheduler.spec_fixed_dt()@,
            scheduler.spec_fixed_dt() == old(scheduler).spec_fixed_dt(),
            total == old(scheduler).spec_accumulator().add(clamped)@,
            -1_000_000_000_000_000 <= total <= 1_000_000_000_000_000,
            scheduler.spec_accumulator()@ == total - steps * dt,
            scheduler.spec_accumulator()@ >= 0 || steps == 0,
            world_order(*world) == world_order(*old(world)),
            world_view(*world) == spec_fixed_steps(
                world_view(*old(world)),
                world_order(*old(world)),
                gravity,
                old(scheduler).spec_fixed_dt(),
                steps as nat,
            ),
        ensures
            scheduler.spec_accumulator()@ < dt,
            scheduler.spec_state() == SchedulerState::Idle,
        decreases scheduler.spec_accumulator()@ + 1_000_000_000_000_000,
    {
        let ghost held = scheduler.spec_accumulator()@;
        match scheduler.next_step() {
            Some(step) => {
                assert(held >= dt);
                assert(steps * dt <= total) by (nonlinear_arith)
                    requires
                        held == total - steps * dt,
                        held >= dt,
                        dt > 0,
                ;
                assert(steps < 1_000_000_000_000_000) by (nonlinear_arith)
                    requires
                        steps * dt <= total - dt,
                        dt >= 1,
                        total <= 1_000_000_000_000_000,
                        steps >= 0,
                ;
                assert((steps + 1) * dt == steps * dt + dt) by (nonlinear_arith);
                fixed_step(world, gravity, step);
                steps += 1;
            },
            None => {
                break ;
            },
        }
    }
    proof {
        lemma_steps_owed(total, dt, steps as int);
    }
    (clamped, steps)
}

/// Taking `steps` steps of length `dt` out of `total` and ending with less than
/// one step left means that `steps` is the number of whole steps in `total`.
pub proof fn lemma_steps_owed(total: int, dt: int, steps: int)
    requires
        dt > 0,
        steps >= 0,
        total - steps * dt < dt,
        total - steps * dt >= 0 || steps == 0,
    ensures
        steps as nat == steps_owed(total, dt),
        total - steps * dt == time_left(total, dt),
{
    if steps == 0 {
        assert(total < dt);
    } else {
        let rest = total - steps * dt;
        assert(total >= dt) by (nonlinear_arith)
            requires
                total - steps * dt >= 0,
                steps >= 1,
                dt > 0,
        ;
        vstd::arithmetic::div_mod::lemma_fundamental_div_mod_converse(total, dt, steps, rest);
    }
}

} // verus!
