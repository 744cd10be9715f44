//! Point masses under mutual Newtonian gravitation, advanced in fixed time steps.
//!
//! A [`Universe`] holds a set of bodies, the gravitational constant and the time
//! step. [`Universe::step`] sums the pairwise forces on every body from the
//! positions as they stand, then moves each body: velocity first, position with
//! the new velocity.
//!
//! The engine is generic over the number type it computes with ([`Scalar`]), so
//! the same verified code runs on whatever arithmetic a program plugs in. Every
//! contract is stated over the results that this arithmetic gives; none assumes
//! that its additions associate or that its divisions are exact.

pub mod body;
pub mod gravity;
pub mod laws;
pub mod pairing;
pub mod scalar;
pub mod universe;
pub mod vector;

pub use body::Body;
pub use scalar::Scalar;
pub use universe::Universe;
pub use vector::Vec2;
