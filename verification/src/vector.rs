//! Two-dimensional vectors: positions, velocities and forces.

use vstd::prelude::*;
use crate::scalar::{Scalar, deterministic, origin, sum, difference, product, quotient};

verus! {

/// A vector in the plane, by its two components.
#[derive(Copy, Debug, PartialEq)]
pub struct Vec2<S> {
    pub x: S,
    pub y: S,
}

impl<S: Copy> Clone for Vec2<S> {
    fn clone(&self) -> (copy: Self)
        ensures
            copy == *self,
    {
        *self
    }
}

impl<S: Scalar> Vec2<S> {
    /// The vector with both components zero.
    pub open spec fn origin() -> Self {
        Vec2 { x: origin(), y: origin() }
    }

    /// The component-wise sum `self + rhs`.
    pub open spec fn sum(self, rhs: Self) -> Self {
        Vec2 { x: sum(self.x, rhs.x), y: sum(self.y, rhs.y) }
    }

    /// The component-wise difference `self - rhs`.
    pub open spec fn difference(self, rhs: Self) -> Self {
        Vec2 { x: difference(self.x, rhs.x), y: difference(self.y, rhs.y) }
    }

    /// Each component multiplied by `k`, the component on the left.
    pub open spec fn scaled(self, k: S) -> Self {
        Vec2 { x: product(self.x, k), y: product(self.y, k) }
    }

    /// Each component divided by `k`.
    pub open spec fn divided(self, k: S) -> Self {
        Vec2 { x: quotient(self.x, k), y: quotient(self.y, k) }
    }

    /// Adds `rhs` component by component.
    pub fn plus(self, rhs: Self) -> (r: Self)
        requires
            deterministic::<S>(),
        ensures
            r == self.sum(rhs),
    {
        Vec2 { x: self.x.plus(rhs.x), y: self.y.plus(rhs.y) }
    }

    /// Subtracts `rhs` component by component.
    pub fn minus(self, rhs: Self) -> (r: Self)
        requires
            deterministic::<S>(),
        ensures
            r == self.difference(rhs),
    {
        Vec2 { x: self.x.minus(rhs.x), y: self.y.minus(rhs.y) }
    }

    /// Multiplies both components by `k`.
    pub fn times(self, k: S) -> (r: Self)
        requires
            deterministic::<S>(),
        ensures
            r == self.scaled(k),
    {
        Vec2 { x: self.x.times(k), y: self.y.times(k) }
    }

    /// Divides both components by `k`.
    pub fn over(self, k: S) -> (r: Self)
        requires
            deterministic::<S>(),
        ensures
            r == self.divided(k),
    {
        Vec2 { x: self.x.over(k), y: self.y.over(k) }
    }
}

} // verus!
