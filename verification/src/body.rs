//! A point mass and the way one time step moves it.

use vstd::prelude::*;
use crate::scalar::{Scalar, deterministic};
use crate::vector::Vec2;

verus! {

/// A point mass: where it is, how fast it moves, and how heavy it is.
#[derive(Copy, Debug, PartialEq)]
pub struct Body<S> {
    pub pos: Vec2<S>,
    pub vel: Vec2<S>,
    pub mass: S,
}

impl<S: Copy> Clone for Body<S> {
    fn clone(&self) -> (copy: Self)
        ensures
            copy == *self,
    {
        *self
    }
}

impl<S: Scalar> Body<S> {
    /// The acceleration that `force` gives this body: the force divided by the
    /// body's own mass.
    pub open spec fn acceleration(self, force: Vec2<S>) -> Vec2<S> {
        force.divided(self.mass)
    }

    /// The body one time step `dt` later, under the net force `force`.
    ///
    /// The velocity is integrated first, and the position then moves with the
    /// velocity already updated. The mass stays as it is.
    pub open spec fn advanced(self, force: Vec2<S>, dt: S) -> Self {
        let vel = self.vel.sum(self.acceleration(force).scaled(dt));
        Body { pos: self.pos.sum(vel.scaled(dt)), vel, mass: self.mass }
    }

    /// Moves the body one time step `dt` ahead under the net force `force`.
    pub fn advance(&mut self, force: Vec2<S>, dt: S)
        requires
            deterministic::<S>(),
        ensures
            *final(self) == old(self).advanced(force, dt),
    {
        let acceleration = force.over(self.mass);
        self.vel = self.vel.plus(acceleration.times(dt));
        self.pos = self.pos.plus(self.vel.times(dt));
    }
}

} // verus!
