//! The simulation engine: a fixed set of bodies stepped through time.

use vstd::prelude::*;
use crate::body::Body;
use crate::gravity::{net_force, net_forces};
use crate::scalar::{Scalar, deterministic};

verus! {

/// What a universe holds at one instant, as a mathematical value.
pub struct State<S> {
    /// The bodies, in the order in which they were given.
    pub bodies: Seq<Body<S>>,
    /// The gravitational constant.
    pub g: S,
    /// The length of one time step.
    pub dt: S,
}

impl<S: Scalar> State<S> {
    /// The state one time step later.
    ///
    /// Every body is moved by the net force that the positions at the start of
    /// the step give it: no body sees another one's new position. The constants
    /// and the number and order of the bodies stay.
    pub open spec fn stepped(self) -> Self {
        State {
            bodies: Seq::new(
                self.bodies.len(),
                |k: int| self.bodies[k].advanced(net_force(self.bodies, self.g, k), self.dt),
            ),
            g: self.g,
            dt: self.dt,
        }
    }

    /// The state `steps` time steps later.
    pub open spec fn evolved(self, steps: nat) -> Self
        decreases steps,
    {
        if steps == 0 {
            self
        } else {
            self.evolved((steps - 1) as nat).stepped()
        }
    }
}

/// A set of bodies under mutual gravitation, with the gravitational constant
/// and the time step that every call of [`Universe::step`] advances it by.
pub struct Universe<S> {
    bodies: Vec<Body<S>>,
    g: S,
    dt: S,
}

impl<S: Scalar> View for Universe<S> {
    type V = State<S>;

    closed spec fn view(&self) -> State<S> {
        State { bodies: self.bodies@, g: self.g, dt: self.dt }
    }
}

impl<S: Scalar> Universe<S> {
    /// A universe of the given bodies, gravitational constant `g` and time
    /// step `dt`. Nothing is checked: any values are taken as they are.
    pub fn new(bodies: Vec<Body<S>>, g: S, dt: S) -> (universe: Self)
        ensures
            universe@ == (State { bodies: bodies@, g, dt }),
    {
        Universe { bodies, g, dt }
    }

    /// The bodies as they now are, in the order in which they were given.
    pub fn bodies(&self) -> (bodies: &Vec<Body<S>>)
        ensures
            bodies@ == self@.bodies,
    {
        &self.bodies
    }

    /// The gravitational constant.
    pub fn g(&self) -> (g: S)
        ensures
            g == self@.g,
    {
        self.g
    }

    /// The length of one time step.
    pub fn dt(&self) -> (dt: S)
        ensures
            dt == self@.dt,
    {
        self.dt
    }

    /// Advances every body by one time step.
    ///
    /// The net forces are all computed first, from the positions at the start
    /// of the step; only then are the bodies moved, one after another.
    pub fn step(&mut self)
        requires
            deterministic::<S>(),
        ensures
            final(self)@ == old(self)@.stepped(),
    {
        let forces = net_forces(&self.bodies, self.g);
        let n: usize = self.bodies.len();
        let mut i: usize = 0;
        while i < n
            invariant
                deterministic::<S>(),
                i <= n,
                n == self.bodies@.len(),
                n == old(self).bodies@.len(),
                forces@.len() == n,
                self.g == old(self).g,
                self.dt == old(self).dt,
                forall|k: int|
                    0 <= k < n ==> forces@[k] == net_force(old(self).bodies@, old(self).g, k),
                forall|k: int|
                    0 <= k < i ==> self.bodies@[k] == old(self).bodies@[k].advanced(
                        forces@[k],
                        self.dt,
                    ),
                forall|k: int| i <= k < n ==> self.bodies@[k] == old(self).bodies@[k],
            decreases n - i,
        {
            self.bodies[i].advance(forces[i], self.dt);
            i += 1;
        }
        assert(self@.bodies =~= old(self)@.stepped().bodies);
    }
}

} // verus!
