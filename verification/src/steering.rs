//! The seek policy: a bounded force that bends a velocity toward a target.

use vstd::prelude::*;
use crate::vector::{lemma_with_length_bound, Offset, SpecVector, Vector};

verus! {

/// Why no direction toward a target could be taken.
#[derive(Clone, Copy, Debug, PartialEq, Eq, Structural)]
pub enum SteeringError {
    /// The target lies on the agent's own position, so that no direction leads to it.
    DegenerateDirection,
}

/// The velocity of length `max_speed` that leads from `position` straight to `target`.
pub open spec fn desired_velocity(position: SpecVector, target: SpecVector, max_speed: int)
    -> SpecVector {
    target.minus(position).with_length(max_speed)
}

/// The force of the seek policy: the difference between the desired and the
/// current velocity, no longer than `max_force`; no force at all where the
/// agent stands on its target.
pub open spec fn seek_force(
    position: SpecVector,
    velocity: SpecVector,
    target: SpecVector,
    max_speed: int,
    max_force: int,
) -> SpecVector {
    if target == position {
        SpecVector::zero()
    } else {
        desired_velocity(position, target, max_speed).minus(velocity).clamped(max_force)
    }
}

/// Clamping never yields a vector longer than the bound.
pub proof fn lemma_clamped_bound(v: SpecVector, max: int)
    requires
        0 <= max,
    ensures
        v.clamped(max).norm_sq() <= max * max,
{
    lemma_with_length_bound(v, max);
}

/// The seek force is never longer than `max_force`, however far the desired
/// velocity lies from the current one.
pub proof fn lemma_seek_force_bound(
    position: SpecVector,
    velocity: SpecVector,
    target: SpecVector,
    max_speed: int,
    max_force: int,
)
    requires
        0 <= max_force,
    ensures
        seek_force(position, velocity, target, max_speed, max_force).norm_sq() <= max_force
            * max_force,
{
    lemma_clamped_bound(
        desired_velocity(position, target, max_speed).minus(velocity),
        max_force,
    );
    assert(0 <= max_force * max_force) by (nonlinear_arith);
}

/// Takes the velocity of length `max_speed` from `position` toward `target`,
/// or reports that the two coincide.
pub fn direction_to(position: &Vector, target: &Vector, max_speed: i32) -> (r: Result<
    Vector,
    SteeringError,
>)
    requires
        0 <= max_speed,
    ensures
        target@ == position@ <==> r == Err::<Vector, SteeringError>(
            SteeringError::DegenerateDirection,
        ),
        target@ != position@ ==> r is Ok && r->Ok_0@ == desired_velocity(
            position@,
            target@,
            max_speed as int,
        ),
{
    let toward: Offset = target.minus(position);
    if toward.is_zero() {
        Err(SteeringError::DegenerateDirection)
    } else {
        Ok(toward.with_length(max_speed))
    }
}

/// The seek policy. Returns the force to accumulate and changes nothing.
pub fn seek(
    position: &Vector,
    velocity: &Vector,
    target: &Vector,
    max_speed: i32,
    max_force: i32,
) -> (force: Vector)
    requires
        0 <= max_speed,
        0 <= max_force,
    ensures
        force@ == seek_force(
            position@,
            velocity@,
            target@,
            max_speed as int,
            max_force as int,
        ),
        force@.norm_sq() <= max_force * max_force,
        target@ == position@ ==> force@.is_zero(),
{
    proof {
        lemma_seek_force_bound(
            position@,
            velocity@,
            target@,
            max_speed as int,
            max_force as int,
        );
    }
    match direction_to(position, target, max_speed) {
        Err(_) => Vector::zero(),
        Ok(desired) => desired.minus(velocity).clamp_length(max_force),
    }
}

} // verus!
