//! What holds of the agent over every run: proved over the model, for whole
//! numbers of any size.

use vstd::prelude::*;
use crate::agent::AgentState;
use crate::sqrt::lemma_square_monotone;
use crate::steering::{desired_velocity, lemma_clamped_bound, lemma_seek_force_bound};
use crate::vector::{
    lemma_norm_sq_positive, lemma_scaled_magnitude, scaled_magnitude, SpecVector,
};

verus! {

/// The agent after one frame toward each of `targets`, in their order.
pub open spec fn after_frames(start: AgentState, targets: Seq<SpecVector>) -> AgentState
    decreases targets.len(),
{
    if targets.len() == 0 {
        start
    } else {
        after_frames(start, targets.drop_last()).framed(targets.last())
    }
}

/// The agent after each of `forces` is accumulated, in their order.
pub open spec fn after_forces(start: AgentState, forces: Seq<SpecVector>) -> AgentState
    decreases forces.len(),
{
    if forces.len() == 0 {
        start
    } else {
        after_forces(start, forces.drop_last()).with_force(forces.last())
    }
}

/// The sum of `forces`.
pub open spec fn total(forces: Seq<SpecVector>) -> SpecVector
    decreases forces.len(),
{
    if forces.len() == 0 {
        SpecVector::zero()
    } else {
        total(forces.drop_last()).plus(forces.last())
    }
}

/// The speed limit holds after every integration step, whatever was
/// accumulated and however fast the agent was before.
pub proof fn lemma_speed_cap(state: AgentState)
    requires
        state.valid(),
    ensures
        state.integrated().velocity.norm_sq() <= state.max_speed * state.max_speed,
{
    lemma_clamped_bound(state.heading(), state.max_speed);
}

/// The speed limit holds after every frame of every run: for all sequences
/// of targets, of any length but zero. The limits themselves never change.
pub proof fn lemma_speed_cap_over_frames(start: AgentState, targets: Seq<SpecVector>)
    requires
        start.valid(),
    ensures
        after_frames(start, targets).valid(),
        after_frames(start, targets).max_speed == start.max_speed,
        after_frames(start, targets).max_force == start.max_force,
        targets.len() > 0 ==> after_frames(start, targets).velocity.norm_sq() <= start.max_speed
            * start.max_speed,
    decreases targets.len(),
{
    if targets.len() > 0 {
        lemma_speed_cap_over_frames(start, targets.drop_last());
        let before = after_frames(start, targets.drop_last());
        lemma_speed_cap(before.with_target(targets.last()).steered());
    }
}

/// The force of a frame is within the force limit in every frame of every run.
pub proof fn lemma_force_cap_over_frames(
    start: AgentState,
    targets: Seq<SpecVector>,
    next: SpecVector,
)
    requires
        start.valid(),
    ensures
        after_frames(start, targets).with_target(next).steering_force().norm_sq()
            <= start.max_force * start.max_force,
{
    lemma_speed_cap_over_frames(start, targets);
    let now = after_frames(start, targets).with_target(next);
    lemma_seek_force_bound(now.position, now.velocity, now.target, now.max_speed, now.max_force);
}

/// Accumulation adds up and cuts nothing down: after any number of forces
/// the accumulator holds what it held before and their sum.
pub proof fn lemma_forces_add_up(start: AgentState, forces: Seq<SpecVector>)
    ensures
        after_forces(start, forces) == start.with_force(total(forces)),
    decreases forces.len(),
{
    if forces.len() > 0 {
        lemma_forces_add_up(start, forces.drop_last());
    }
}

/// The accumulator is empty after integration, however many forces were
/// accumulated in the frame.
pub proof fn lemma_accumulator_reset(start: AgentState, forces: Seq<SpecVector>)
    ensures
        after_forces(start, forces).integrated().acceleration == SpecVector::zero(),
{
}

/// The accumulator is empty after every frame of every run, and so at the
/// start of the steering of the next.
pub proof fn lemma_accumulator_empty_over_frames(start: AgentState, targets: Seq<SpecVector>)
    ensures
        targets.len() > 0 ==> after_frames(start, targets).acceleration == SpecVector::zero(),
{
}

/// An agent that stands on its target is not steered: the force is zero, the
/// agent moves on by its velocity, and that velocity is only cut down to the
/// speed limit. Within the limit it stays as it is; beyond it, each
/// coordinate keeps its sign and none grows.
pub proof fn lemma_frame_on_target(state: AgentState)
    requires
        state.valid(),
        state.acceleration == SpecVector::zero(),
    ensures
        state.with_target(state.position).steering_force() == SpecVector::zero(),
        state.framed(state.position).position == state.position.plus(state.velocity),
        state.framed(state.position).velocity == state.velocity.clamped(state.max_speed),
        state.velocity.norm_sq() <= state.max_speed * state.max_speed ==> state.framed(
            state.position,
        ).velocity == state.velocity,
        0 <= state.velocity.x ==> 0 <= state.framed(state.position).velocity.x
            <= state.velocity.x,
        state.velocity.x <= 0 ==> state.velocity.x <= state.framed(state.position).velocity.x
            <= 0,
        0 <= state.velocity.y ==> 0 <= state.framed(state.position).velocity.y
            <= state.velocity.y,
        state.velocity.y <= 0 ==> state.velocity.y <= state.framed(state.position).velocity.y
            <= 0,
{
    lemma_clamped_keeps_direction(state.velocity, state.max_speed);
}

/// Cutting a vector down to a length keeps the sign of each coordinate and
/// lets none of them grow.
pub proof fn lemma_clamped_keeps_direction(v: SpecVector, max: int)
    requires
        0 <= max,
    ensures
        0 <= v.x ==> 0 <= v.clamped(max).x <= v.x,
        v.x <= 0 ==> v.x <= v.clamped(max).x <= 0,
        0 <= v.y ==> 0 <= v.clamped(max).y <= v.y,
        v.y <= 0 ==> v.y <= v.clamped(max).y <= 0,
{
    if v.norm_sq() > max * max {
        let s = v.norm_sq();
        lemma_norm_sq_positive(v);
        assert(0 <= max * max) by (nonlinear_arith);
        lemma_shrunk_magnitude(v.x, max, s);
        lemma_shrunk_magnitude(v.y, max, s);
    }
}

/// Where the length asked for is below the length there is, a rescaled
/// coordinate is no larger than it was.
proof fn lemma_shrunk_magnitude(c: int, len: int, s: int)
    requires
        0 <= len,
        len * len < s,
    ensures
        0 <= scaled_magnitude(c, len, s),
        c >= 0 ==> scaled_magnitude(c, len, s) <= c,
        c <= 0 ==> scaled_magnitude(c, len, s) <= -c,
{
    let m = scaled_magnitude(c, len, s);
    let a = if c >= 0 { c } else { -c };
    lemma_scaled_magnitude(c, len, s);
    assert(a * a == c * c) by (nonlinear_arith)
        requires
            a == c || a == -c,
    ;
    if m > a {
        lemma_square_monotone(a + 1, m);
        assert(false) by (nonlinear_arith)
            requires
                (a + 1) * (a + 1) <= m * m,
                m * m * s <= (c * c) * (len * len),
                a * a == c * c,
                len * len < s,
                0 <= a,
        ;
    }
}

/// A rescaled coordinate is at most twice what it was, as long as the length
/// asked for is at most twice the length there is.
proof fn lemma_doubled_magnitude(c: int, len: int, s: int)
    requires
        0 < s,
        len * len <= 4 * s,
    ensures
        0 <= scaled_magnitude(c, len, s),
        c >= 0 ==> scaled_magnitude(c, len, s) <= 2 * c,
        c <= 0 ==> scaled_magnitude(c, len, s) <= -2 * c,
{
    let m = scaled_magnitude(c, len, s);
    let a = if c >= 0 { c } else { -c };
    lemma_scaled_magnitude(c, len, s);
    assert(a * a == c * c) by (nonlinear_arith)
        requires
            a == c || a == -c,
    ;
    if m > 2 * a {
        lemma_square_monotone(2 * a + 1, m);
        assert(false) by (nonlinear_arith)
            requires
                (2 * a + 1) * (2 * a + 1) <= m * m,
                m * m * s <= (c * c) * (len * len),
                a * a == c * c,
                len * len <= 4 * s,
                0 < s,
                0 <= a,
        ;
    }
}

/// A step of `r` from `c` toward zero and at most to `-c` ends no farther
/// from zero than `c` is.
proof fn lemma_step_toward_zero(c: int, r: int)
    by (nonlinear_arith)
    requires
        (0 <= r <= 2 * c) || (2 * c <= r <= 0),
    ensures
        (c - r) * (c - r) <= c * c,
{
}

/// Pursuit in the steady state does not lead away: an agent that already
/// moves with the velocity the policy desires, toward a target that stands
/// still at no less than half its speed limit's distance, is not steered and
/// ends the frame no farther from the target than it began.
pub proof fn lemma_steady_pursuit_approaches(state: AgentState)
    requires
        state.valid(),
        state.acceleration == SpecVector::zero(),
        state.target != state.position,
        state.velocity == desired_velocity(state.position, state.target, state.max_speed),
        state.max_speed * state.max_speed <= 4 * state.target.minus(state.position).norm_sq(),
    ensures
        state.steering_force() == SpecVector::zero(),
        state.framed(state.target).velocity.norm_sq() <= state.max_speed * state.max_speed,
        state.target.minus(state.framed(state.target).position).norm_sq() <= state.target.minus(
            state.position,
        ).norm_sq(),
{
    let d = state.target.minus(state.position);
    let s = d.norm_sq();
    let v = state.velocity;
    lemma_norm_sq_positive(d);
    assert(0 <= state.max_force * state.max_force) by (nonlinear_arith);
    assert(v.minus(v) == SpecVector::zero());
    assert(state.steering_force() == SpecVector::zero());
    let after = state.framed(state.target);
    assert(after.position == state.position.plus(v));
    lemma_speed_cap(state.with_target(state.target).steered());
    lemma_doubled_magnitude(d.x, state.max_speed, s);
    lemma_doubled_magnitude(d.y, state.max_speed, s);
    lemma_step_toward_zero(d.x, v.x);
    lemma_step_toward_zero(d.y, v.y);
    let left = state.target.minus(after.position);
    assert(left.x == d.x - v.x && left.y == d.y - v.y);
}

} // verus!
