//! The agent: its kinematic state, the force accumulator and the integrator.

use vstd::prelude::*;
use crate::orientation::{facing, orientation_of, Orientation};
use crate::steering::{lemma_clamped_bound, seek, seek_force};
use crate::vector::{Offset, SpecVector, Vector};

verus! {

/// The state of an agent over the whole numbers: the model that the contracts
/// of [`Agent`] speak of.
pub struct AgentState {
    pub position: SpecVector,
    pub velocity: SpecVector,
    pub acceleration: SpecVector,
    pub target: SpecVector,
    pub max_speed: int,
    pub max_force: int,
}

impl AgentState {
    /// Neither limit is negative.
    pub open spec fn valid(self) -> bool {
        0 <= self.max_speed && 0 <= self.max_force
    }

    /// The same agent, steering toward `target` from now on.
    pub open spec fn with_target(self, target: SpecVector) -> AgentState {
        AgentState { target, ..self }
    }

    /// The force that the seek policy asks for in this state.
    pub open spec fn steering_force(self) -> SpecVector {
        seek_force(self.position, self.velocity, self.target, self.max_speed, self.max_force)
    }

    /// The same agent with `force` added to what it has accumulated.
    pub open spec fn with_force(self, force: SpecVector) -> AgentState {
        AgentState { acceleration: self.acceleration.plus(force), ..self }
    }

    /// The agent after its steering force is accumulated.
    pub open spec fn steered(self) -> AgentState {
        self.with_force(self.steering_force())
    }

    /// The velocity of this tick before the speed limit is applied to it: the
    /// agent is displaced by it and faces along it.
    pub open spec fn heading(self) -> SpecVector {
        self.velocity.plus(self.acceleration)
    }

    /// The agent after one tick of integration: displaced by its heading, its
    /// velocity the heading cut down to the speed limit, its accumulator empty.
    pub open spec fn integrated(self) -> AgentState {
        AgentState {
            position: self.position.plus(self.heading()),
            velocity: self.heading().clamped(self.max_speed),
            acceleration: SpecVector::zero(),
            ..self
        }
    }

    /// The agent after one frame toward `target`: the target is observed, the
    /// steering force accumulated, and the state integrated.
    pub open spec fn framed(self, target: SpecVector) -> AgentState {
        self.with_target(target).steered().integrated()
    }

    /// The accumulator can take `force` without leaving the stored range.
    pub open spec fn can_take(self, force: SpecVector) -> bool {
        self.acceleration.plus(force).storable()
    }

    /// Integration leaves the position within the stored range.
    pub open spec fn can_integrate(self) -> bool {
        self.position.plus(self.heading()).storable()
    }

    /// A whole frame toward `target` stays within the stored range.
    pub open spec fn can_frame(self, target: SpecVector) -> bool {
        let seen = self.with_target(target);
        seen.can_take(seen.steering_force()) && seen.steered().can_integrate()
    }
}

/// One pursuing agent.
#[derive(Clone, Copy, Debug)]
pub struct Agent {
    position: Vector,
    velocity: Vector,
    acceleration: Vector,
    target: Vector,
    max_speed: i32,
    max_force: i32,
}

impl View for Agent {
    type V = AgentState;

    closed spec fn view(&self) -> AgentState {
        AgentState {
            position: self.position@,
            velocity: self.velocity@,
            acceleration: self.acceleration@,
            target: self.target@,
            max_speed: self.max_speed as int,
            max_force: self.max_force as int,
        }
    }
}

impl Agent {
    /// The limits of the agent are not negative.
    pub open spec fn wf(&self) -> bool {
        self@.valid()
    }

    /// An agent at `position` that moves with `velocity`. It has accumulated
    /// no force yet, and its target is the origin until one is observed.
    pub fn new(position: Vector, velocity: Vector, max_speed: i32, max_force: i32) -> (r: Agent)
        requires
            0 <= max_speed,
            0 <= max_force,
        ensures
            r.wf(),
            r@.position == position@,
            r@.velocity == velocity@,
            r@.acceleration == SpecVector::zero(),
            r@.target == SpecVector::zero(),
            r@.max_speed == max_speed,
            r@.max_force == max_force,
    {
        Agent {
            position,
            velocity,
            acceleration: Vector::zero(),
            target: Vector::zero(),
            max_speed,
            max_force,
        }
    }

    /// Observes the target of this frame.
    pub fn seek_target(&mut self, target: Vector)
        ensures
            final(self)@ == old(self)@.with_target(target@),
    {
        self.target = target;
    }

    /// Takes what the target's provider saw in this frame: a new target, or
    /// nothing, in which case the last target stays.
    pub fn observe_target(&mut self, sighting: Option<Vector>)
        ensures
            sighting is Some ==> final(self)@ == old(self)@.with_target(sighting->Some_0@),
            sighting is None ==> *final(self) == *old(self),
    {
        match sighting {
            Some(target) => self.seek_target(target),
            None => {},
        }
    }

    /// The force that the seek policy asks for. Nothing is accumulated.
    pub fn steering_force(&self) -> (force: Vector)
        requires
            self.wf(),
        ensures
            force@ == self@.steering_force(),
            force@.norm_sq() <= self@.max_force * self@.max_force,
    {
        seek(&self.position, &self.velocity, &self.target, self.max_speed, self.max_force)
    }

    /// Whether the accumulator can take `force`.
    pub fn can_apply_force(&self, force: &Vector) -> (r: bool)
        ensures
            r == self@.can_take(force@),
    {
        self.acceleration.plus(force).narrow().is_some()
    }

    /// Adds `force` to the accumulator. The sum is not cut down.
    pub fn apply_force(&mut self, force: &Vector)
        requires
            old(self)@.can_take(force@),
        ensures
            final(self)@ == old(self)@.with_force(force@),
    {
        let sum: Offset = self.acceleration.plus(force);
        self.acceleration = Vector { x: sum.x as i32, y: sum.y as i32 };
    }

    /// Accumulates the force that the seek policy asks for.
    pub fn steering(&mut self)
        requires
            old(self).wf(),
            old(self)@.can_take(old(self)@.steering_force()),
        ensures
            final(self)@ == old(self)@.steered(),
    {
        let force: Vector = self.steering_force();
        self.apply_force(&force);
    }

    /// Whether a tick of integration keeps the position in the stored range.
    pub fn can_integrate(&self) -> (r: bool)
        ensures
            r == self@.can_integrate(),
    {
        let heading: Offset = self.velocity.plus(&self.acceleration);
        let moved: Offset = Offset {
            x: self.position.x as i64 + heading.x,
            y: self.position.y as i64 + heading.y,
        };
        moved.narrow().is_some()
    }

    /// Advances the agent by one tick and empties the accumulator. The
    /// displacement and the facing returned go by the velocity before the
    /// speed limit is applied; the velocity kept is within the limit.
    pub fn integrate(&mut self) -> (orientation: Orientation)
        requires
            old(self).wf(),
            old(self)@.can_integrate(),
        ensures
            final(self)@ == old(self)@.integrated(),
            final(self).wf(),
            final(self)@.velocity.norm_sq() <= final(self)@.max_speed * final(self)@.max_speed,
            final(self)@.acceleration == SpecVector::zero(),
            orientation == facing(old(self)@.heading()),
    {
        let heading: Offset = self.velocity.plus(&self.acceleration);
        proof {
            lemma_clamped_bound(heading@, self.max_speed as int);
        }
        self.position = Vector {
            x: (self.position.x as i64 + heading.x) as i32,
            y: (self.position.y as i64 + heading.y) as i32,
        };
        self.velocity = heading.clamp_length(self.max_speed);
        self.acceleration = Vector::zero();
        orientation_of(&heading)
    }

    /// Runs one frame toward `target` where it stays within the stored range:
    /// observes the target, accumulates the steering force and integrates.
    /// Otherwise the agent is left as it was.
    pub fn frame(&mut self, target: Vector) -> (orientation: Option<Orientation>)
        requires
            old(self).wf(),
        ensures
            final(self).wf(),
            orientation is Some <==> old(self)@.can_frame(target@),
            orientation is Some ==> final(self)@ == old(self)@.framed(target@),
            orientation is Some ==> orientation->Some_0 == facing(
                old(self)@.with_target(target@).steered().heading(),
            ),
            orientation is None ==> *final(self) == *old(self),
    {
        let before: Agent = *self;
        self.seek_target(target);
        let force: Vector = self.steering_force();
        if !self.can_apply_force(&force) {
            *self = before;
            return None;
        }
        self.apply_force(&force);
        if !self.can_integrate() {
            *self = before;
            return None;
        }
        Some(self.integrate())
    }

    pub fn position(&self) -> (r: Vector)
        ensures
            r@ == self@.position,
    {
        self.position
    }

    pub fn velocity(&self) -> (r: Vector)
        ensures
            r@ == self@.velocity,
    {
        self.velocity
    }

    pub fn acceleration(&self) -> (r: Vector)
        ensures
            r@ == self@.acceleration,
    {
        self.acceleration
    }

    pub fn target(&self) -> (r: Vector)
        ensures
            r@ == self@.target,
    {
        self.target
    }

    pub fn max_speed(&self) -> (r: i32)
        ensures
            r == self@.max_speed,
    {
        self.max_speed
    }

    pub fn max_force(&self) -> (r: i32)
        ensures
            r == self@.max_force,
    {
        self.max_force
    }
}

} // verus!
