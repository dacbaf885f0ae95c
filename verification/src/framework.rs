use vstd::prelude::*;

verus! {

/// The length of one fixed update step: a sixtieth of a second, in nanoseconds
/// (rounded down to whole nanoseconds).
pub const FRAME_TIME_NANOS: u64 = 16666666;

/// The longest stretch of wall-clock time one update accounts for, in
/// nanoseconds; longer pauses are cut to this.
pub const MAX_FRAME_DELTA_NANOS: u64 = 250000000;

/// The elapsed time that an update accounts for.
pub open spec fn clamped_delta(elapsed: u128) -> nat {
    if elapsed > MAX_FRAME_DELTA_NANOS {
        MAX_FRAME_DELTA_NANOS as nat
    } else {
        elapsed as nat
    }
}

/// `steps` fixed steps are taken and `time_accum` nanoseconds are carried over
/// when `accum` nanoseconds were carried into an update that saw `elapsed`
/// nanoseconds pass: whole steps are taken while more than one step's time is
/// pending, so what is carried over is at most one step, and positive if a step
/// was taken.
pub open spec fn is_step_plan(accum: u64, elapsed: u128, steps: u64, time_accum: u64) -> bool {
    &&& steps * FRAME_TIME_NANOS + time_accum == accum + clamped_delta(elapsed)
    &&& time_accum <= FRAME_TIME_NANOS
    &&& steps > 0 ==> time_accum > 0
}

/// Decides one frame of the fixed-timestep loop: given the time carried over
/// from the last frame and the time elapsed since, returns how many fixed steps
/// to run and the time to carry over to the next frame.
pub fn advance_time(time_accum: u64, elapsed: u128) -> (plan: (u64, u64))
    ensures
        is_step_plan(time_accum, elapsed, plan.0, plan.1),
{
    let delta: u64 = if elapsed > MAX_FRAME_DELTA_NANOS as u128 {
        MAX_FRAME_DELTA_NANOS
    } else {
        elapsed as u64
    };
    let ghost total: int = time_accum + delta;
    let mut accum: u128 = time_accum as u128 + delta as u128;
    let mut steps: u64 = 0;
    while accum > FRAME_TIME_NANOS as u128
        invariant
            steps * FRAME_TIME_NANOS + accum == total,
            total == time_accum + clamped_delta(elapsed),
            total <= u64::MAX + MAX_FRAME_DELTA_NANOS,
            steps > 0 ==> accum > 0,
        decreases accum,
    {
        accum = accum - FRAME_TIME_NANOS as u128;
        steps = steps + 1;
    }
    return (steps, accum as u64);
}

/// The time an update accounts for is conserved: it is either spent in fixed
/// steps or carried over.
pub proof fn lemma_time_is_conserved(accum: u64, elapsed: u128, steps: u64, carried: u64)
    requires
        is_step_plan(accum, elapsed, steps, carried),
    ensures
        steps * FRAME_TIME_NANOS + carried == accum + clamped_delta(elapsed),
        clamped_delta(elapsed) <= MAX_FRAME_DELTA_NANOS,
{
}

/// Starting from a settled state (at most one step carried over), one update
/// runs at most sixteen fixed steps, however long the pause was.
pub proof fn lemma_bounded_catch_up(accum: u64, elapsed: u128, steps: u64, carried: u64)
    requires
        accum <= FRAME_TIME_NANOS,
        is_step_plan(accum, elapsed, steps, carried),
    ensures
        steps <= 16,
        carried <= FRAME_TIME_NANOS,
{
}

/// The plan is unique: the loop's result is the only one that meets the spec.
pub proof fn lemma_step_plan_unique(accum: u64, elapsed: u128, s1: u64, c1: u64, s2: u64, c2: u64)
    requires
        is_step_plan(accum, elapsed, s1, c1),
        is_step_plan(accum, elapsed, s2, c2),
    ensures
        s1 == s2,
        c1 == c2,
{
}

} // verus!
