//! Newtonian attraction between point masses, pair by pair and summed per body.

use vstd::prelude::*;
use crate::body::Body;
use crate::scalar::{Scalar, deterministic, origin, product, quotient, root, sum, vanishes};
use crate::vector::Vec2;

verus! {

/// The vector from `a`'s position to `b`'s.
pub open spec fn separation<S: Scalar>(a: Body<S>, b: Body<S>) -> Vec2<S> {
    b.pos.difference(a.pos)
}

/// The squared Euclidean length of `d`.
pub open spec fn squared_length<S: Scalar>(d: Vec2<S>) -> S {
    sum(product(d.x, d.x), product(d.y, d.y))
}

/// The Euclidean distance between `a` and `b`.
pub open spec fn distance<S: Scalar>(a: Body<S>, b: Body<S>) -> S {
    root(squared_length(separation(a, b)))
}

/// The force with which `b` attracts `a`, under the gravitational constant `g`.
///
/// Its magnitude is `g * a.mass * b.mass / r^2` and it points from `a` to `b`,
/// where `r` is the distance between the two. Two bodies at distance zero
/// exert no force on one another: the pair is left out, which is `None`.
pub open spec fn attraction<S: Scalar>(g: S, a: Body<S>, b: Body<S>) -> Option<Vec2<S>> {
    let d = separation(a, b);
    let r = distance(a, b);
    if vanishes(r) {
        None
    } else {
        let magnitude = quotient(product(product(g, a.mass), b.mass), squared_length(d));
        Some(
            Vec2 {
                x: quotient(product(magnitude, d.x), r),
                y: quotient(product(magnitude, d.y), r),
            },
        )
    }
}

/// A running total of forces after the body it belongs to has been attracted
/// with `force`.
pub open spec fn with_action<S: Scalar>(total: Vec2<S>, force: Option<Vec2<S>>) -> Vec2<S> {
    match force {
        Some(f) => total.sum(f),
        None => total,
    }
}

/// A running total of forces after the body it belongs to has felt the reaction
/// to `force`: the same force, in the opposite direction.
pub open spec fn with_reaction<S: Scalar>(total: Vec2<S>, force: Option<Vec2<S>>) -> Vec2<S> {
    match force {
        Some(f) => total.difference(f),
        None => total,
    }
}

/// Body `k`'s running total once the pair it forms with body `j` is taken in.
///
/// Each pair of bodies has one force, that of the later on the earlier. The
/// earlier body of a pair adds it to its total and the later one subtracts it.
pub open spec fn after_meeting<S: Scalar>(
    bodies: Seq<Body<S>>,
    g: S,
    k: int,
    total: Vec2<S>,
    j: int,
) -> Vec2<S> {
    if j < k {
        with_reaction(total, attraction(g, bodies[j], bodies[k]))
    } else {
        with_action(total, attraction(g, bodies[k], bodies[j]))
    }
}

/// The total of the forces on body `k` from the bodies with an index below
/// `upto`, taken in the order of their indices. No body acts on itself.
pub open spec fn net_force_among<S: Scalar>(bodies: Seq<Body<S>>, g: S, k: int, upto: int) -> Vec2<
    S,
>
    decreases upto,
{
    if upto <= 0 {
        Vec2::origin()
    } else if upto - 1 == k {
        net_force_among(bodies, g, k, upto - 1)
    } else {
        after_meeting(bodies, g, k, net_force_among(bodies, g, k, upto - 1), upto - 1)
    }
}

/// The net force on body `k`: the total over all the other bodies.
pub open spec fn net_force<S: Scalar>(bodies: Seq<Body<S>>, g: S, k: int) -> Vec2<S> {
    net_force_among(bodies, g, k, bodies.len() as int)
}

/// How far body `k`'s running total has come when the pairs are walked by
/// their earlier body (`i` ascending, and for each `i` every `j` above it) and
/// the walk stands before the pair `(i, j)`: the bodies below the index given
/// have entered the total. Before the first pair of a row, `j` is `i`.
spec fn partners_met(n: int, i: int, j: int, k: int) -> int {
    if k < i {
        n
    } else if k == i {
        j
    } else if k < j {
        i + 1
    } else {
        i
    }
}

/// Computes the force with which `b` attracts `a`, or `None` where the two are
/// at distance zero.
pub fn attract<S: Scalar>(g: S, a: &Body<S>, b: &Body<S>) -> (force: Option<Vec2<S>>)
    requires
        deterministic::<S>(),
    ensures
        force == attraction(g, *a, *b),
{
    let d = b.pos.minus(a.pos);
    let r2 = d.x.times(d.x).plus(d.y.times(d.y));
    let r = r2.sqrt();
    if r.is_zero() {
        return None;
    }
    let magnitude = g.times(a.mass).times(b.mass).over(r2);
    Some(Vec2 { x: magnitude.times(d.x).over(r), y: magnitude.times(d.y).over(r) })
}

/// Computes the net force on every body, from the positions as they stand.
///
/// Each unordered pair is visited once; its force is added to the total of
/// the earlier body and subtracted from that of the later one.
pub fn net_forces<S: Scalar>(bodies: &Vec<Body<S>>, g: S) -> (forces: Vec<Vec2<S>>)
    requires
        deterministic::<S>(),
    ensures
        forces@.len() == bodies@.len(),
        forall|k: int| 0 <= k < bodies@.len() ==> forces@[k] == net_force(bodies@, g, k),
{
    let n: usize = bodies.len();
    let zero = S::zero();
    let mut forces: Vec<Vec2<S>> = Vec::with_capacity(n);
    let mut filled: usize = 0;
    while filled < n
        invariant
            filled <= n,
            forces@.len() == filled,
            zero == origin::<S>(),
            forall|k: int| 0 <= k < filled ==> forces@[k] == Vec2::<S>::origin(),
        decreases n - filled,
    {
        forces.push(Vec2 { x: zero, y: zero });
        filled += 1;
    }
    let mut i: usize = 0;
    while i < n
        invariant
            deterministic::<S>(),
            n == bodies@.len(),
            i <= n,
            forces@.len() == n,
            forall|k: int|
                0 <= k < n ==> forces@[k] == net_force_among(
                    bodies@,
                    g,
                    k,
                    partners_met(n as int, i as int, i as int, k),
                ),
        decreases n - i,
    {
        let mut j: usize = i + 1;
        while j < n
            invariant
                deterministic::<S>(),
                n == bodies@.len(),
                i < j <= n,
                forces@.len() == n,
                forall|k: int|
                    0 <= k < n ==> forces@[k] == net_force_among(
                        bodies@,
                        g,
                        k,
                        partners_met(n as int, i as int, j as int, k),
                    ),
            decreases n - j,
        {
            match attract(g, &bodies[i], &bodies[j]) {
                Some(f) => {
                    forces[i] = forces[i].plus(f);
                    forces[j] = forces[j].minus(f);
                },
                None => {},
            }
            j += 1;
        }
        i += 1;
    }
    forces
}

} // verus!
