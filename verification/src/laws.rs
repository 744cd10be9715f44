//! What holds of the engine whatever the bodies and the arithmetic are.

use vstd::prelude::*;
use crate::body::Body;
use crate::gravity::{attraction, distance, net_force, net_force_among, with_action, with_reaction};
use crate::scalar::{Scalar, vanishes};
use crate::universe::State;
use crate::vector::Vec2;

verus! {

/// Action and reaction. For two bodies `i < j`, the force that enters `i`'s
/// total when `j` is taken in is the very force that leaves `j`'s total when
/// `i` is taken in: what the one gains, the other loses.
pub proof fn action_and_reaction<S: Scalar>(bodies: Seq<Body<S>>, g: S, i: int, j: int)
    requires
        0 <= i < j < bodies.len(),
    ensures
        net_force_among(bodies, g, i, j + 1) == with_action(
            net_force_among(bodies, g, i, j),
            attraction(g, bodies[i], bodies[j]),
        ),
        net_force_among(bodies, g, j, i + 1) == with_reaction(
            net_force_among(bodies, g, j, i),
            attraction(g, bodies[i], bodies[j]),
        ),
{
}

/// In a system of two bodies the net forces mirror one another: the first
/// body's is the pair's force added to zero, the second's the same force
/// subtracted from zero.
pub proof fn two_body_symmetry<S: Scalar>(bodies: Seq<Body<S>>, g: S)
    requires
        bodies.len() == 2,
    ensures
        net_force(bodies, g, 0) == with_action(Vec2::origin(), attraction(g, bodies[0], bodies[1])),
        net_force(bodies, g, 1) == with_reaction(Vec2::origin(), attraction(g, bodies[0], bodies[1])),
{
    reveal_with_fuel(net_force_among, 3);
}

/// Two bodies at distance zero exert no force on one another.
pub proof fn no_force_at_distance_zero<S: Scalar>(g: S, a: Body<S>, b: Body<S>)
    requires
        vanishes(distance(a, b)),
    ensures
        attraction(g, a, b) is None,
        forall|total: Vec2<S>| #[trigger] with_action(total, attraction(g, a, b)) == total,
        forall|total: Vec2<S>| #[trigger] with_reaction(total, attraction(g, a, b)) == total,
{
}

/// A system of two bodies at distance zero feels no force at all: each body
/// moves on as under zero force.
pub proof fn coincident_pair_is_force_free<S: Scalar>(state: State<S>)
    requires
        state.bodies.len() == 2,
        vanishes(distance(state.bodies[0], state.bodies[1])),
    ensures
        net_force(state.bodies, state.g, 0) == Vec2::<S>::origin(),
        net_force(state.bodies, state.g, 1) == Vec2::<S>::origin(),
        state.stepped().bodies[0] == state.bodies[0].advanced(Vec2::origin(), state.dt),
        state.stepped().bodies[1] == state.bodies[1].advanced(Vec2::origin(), state.dt),
{
    two_body_symmetry(state.bodies, state.g);
}

/// No body acts on itself: the net force on a body that is alone is zero.
pub proof fn lone_body_feels_no_force<S: Scalar>(bodies: Seq<Body<S>>, g: S)
    requires
        bodies.len() == 1,
    ensures
        net_force(bodies, g, 0) == Vec2::<S>::origin(),
{
    reveal_with_fuel(net_force_among, 2);
}

/// A body that is alone keeps its velocity through any number of steps,
/// provided that the effect of zero force, added to that velocity, gives the
/// velocity back.
pub proof fn lone_body_keeps_velocity<S: Scalar>(state: State<S>, steps: nat)
    requires
        state.bodies.len() == 1,
        state.bodies[0].advanced(Vec2::origin(), state.dt).vel == state.bodies[0].vel,
    ensures
        state.evolved(steps).bodies.len() == 1,
        state.evolved(steps).bodies[0].vel == state.bodies[0].vel,
        state.evolved(steps).bodies[0].mass == state.bodies[0].mass,
    decreases steps,
{
    if steps > 0 {
        let earlier = state.evolved((steps - 1) as nat);
        lone_body_keeps_velocity(state, (steps - 1) as nat);
        constants_are_fixed(state, (steps - 1) as nat);
        lone_body_feels_no_force(earlier.bodies, earlier.g);
    }
}

/// A body that is alone stays exactly as it is through any number of steps,
/// provided that one step under zero force leaves it as it is.
pub proof fn lone_body_is_invariant<S: Scalar>(state: State<S>, steps: nat)
    requires
        state.bodies.len() == 1,
        state.bodies[0].advanced(Vec2::origin(), state.dt) == state.bodies[0],
    ensures
        state.evolved(steps) == state,
    decreases steps,
{
    if steps > 0 {
        lone_body_is_invariant(state, (steps - 1) as nat);
        lone_body_feels_no_force(state.bodies, state.g);
        assert(state.stepped().bodies =~= state.bodies);
    }
}

/// The gravitational constant, the time step and the number of bodies are
/// the same after any number of steps.
pub proof fn constants_are_fixed<S: Scalar>(state: State<S>, steps: nat)
    ensures
        state.evolved(steps).g == state.g,
        state.evolved(steps).dt == state.dt,
        state.evolved(steps).bodies.len() == state.bodies.len(),
    decreases steps,
{
    if steps > 0 {
        constants_are_fixed(state, (steps - 1) as nat);
    }
}

/// No body's mass changes, through any number of steps.
pub proof fn mass_is_conserved<S: Scalar>(state: State<S>, steps: nat, k: int)
    requires
        0 <= k < state.bodies.len(),
    ensures
        state.evolved(steps).bodies.len() == state.bodies.len(),
        state.evolved(steps).bodies[k].mass == state.bodies[k].mass,
    decreases steps,
{
    if steps > 0 {
        mass_is_conserved(state, (steps - 1) as nat, k);
    }
}

/// Two runs from the same bodies, gravitational constant and time step agree
/// after every number of steps.
pub proof fn runs_agree<S: Scalar>(a: State<S>, b: State<S>, steps: nat)
    requires
        a.bodies.len() == b.bodies.len(),
        forall|k: int| 0 <= k < a.bodies.len() ==> a.bodies[k] == b.bodies[k],
        a.g == b.g,
        a.dt == b.dt,
    ensures
        a.evolved(steps) == b.evolved(steps),
{
    assert(a.bodies =~= b.bodies);
}

} // verus!
