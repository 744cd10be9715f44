//! The arithmetic a simulation runs on.

use vstd::prelude::*;

verus! {

/// A number type the engine can compute with.
///
/// The engine asks nothing of the operations but that they return: there is no
/// input on which one may refuse to run. In particular a division by zero has
/// to give some value, as it does in IEEE 754 arithmetic. What an operation
/// returns is whatever its own contract says; the functions below name those
/// results, and every contract of the engine is stated over them.
pub trait Scalar: Copy {
    /// The value every accumulation starts from.
    fn zero() -> Self;

    /// `self + rhs`.
    fn plus(self, rhs: Self) -> Self;

    /// `self - rhs`.
    fn minus(self, rhs: Self) -> Self;

    /// `self * rhs`.
    fn times(self, rhs: Self) -> Self;

    /// `self / rhs`.
    fn over(self, rhs: Self) -> Self;

    /// The square root of `self`.
    fn sqrt(self) -> Self;

    /// Whether `self` compares equal to zero.
    fn is_zero(self) -> bool;
}

/// The result of [`Scalar::zero`].
pub open spec fn origin<S: Scalar>() -> S {
    choose|r: S| call_ensures(S::zero, (), r)
}

/// The result of [`Scalar::plus`] on `a` and `b`.
pub open spec fn sum<S: Scalar>(a: S, b: S) -> S {
    choose|r: S| call_ensures(S::plus, (a, b), r)
}

/// The result of [`Scalar::minus`] on `a` and `b`.
pub open spec fn difference<S: Scalar>(a: S, b: S) -> S {
    choose|r: S| call_ensures(S::minus, (a, b), r)
}

/// The result of [`Scalar::times`] on `a` and `b`.
pub open spec fn product<S: Scalar>(a: S, b: S) -> S {
    choose|r: S| call_ensures(S::times, (a, b), r)
}

/// The result of [`Scalar::over`] on `a` and `b`.
pub open spec fn quotient<S: Scalar>(a: S, b: S) -> S {
    choose|r: S| call_ensures(S::over, (a, b), r)
}

/// The result of [`Scalar::sqrt`] on `a`.
pub open spec fn root<S: Scalar>(a: S) -> S {
    choose|r: S| call_ensures(S::sqrt, (a,), r)
}

/// The result of [`Scalar::is_zero`] on `a`.
pub open spec fn vanishes<S: Scalar>(a: S) -> bool {
    choose|r: bool| call_ensures(S::is_zero, (a,), r)
}

/// Every operation of `S` is a function of its arguments: its contract leaves
/// room for one result only.
///
/// The engine requires this wherever it computes, so that what it returns can
/// be stated exactly. An implementation whose methods each ensure an equation
/// for their result meets it.
pub open spec fn deterministic<S: Scalar>() -> bool {
    &&& forall|r: S| #[trigger] call_ensures(S::zero, (), r) ==> r == origin::<S>()
    &&& forall|a: S, b: S, r: S| #[trigger] call_ensures(S::plus, (a, b), r) ==> r == sum(a, b)
    &&& forall|a: S, b: S, r: S| #[trigger]
        call_ensures(S::minus, (a, b), r) ==> r == difference(a, b)
    &&& forall|a: S, b: S, r: S| #[trigger]
        call_ensures(S::times, (a, b), r) ==> r == product(a, b)
    &&& forall|a: S, b: S, r: S| #[trigger]
        call_ensures(S::over, (a, b), r) ==> r == quotient(a, b)
    &&& forall|a: S, r: S| #[trigger] call_ensures(S::sqrt, (a,), r) ==> r == root(a)
    &&& forall|a: S, r: bool| #[trigger] call_ensures(S::is_zero, (a,), r) ==> r == vanishes(a)
}

} // verus!
