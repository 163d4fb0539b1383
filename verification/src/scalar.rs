//! The number interface that the geometric code is written against.
//!
//! Curve evaluation and panel layout only ever combine numbers with the four
//! arithmetic operations, an absolute value and a strict comparison. They are
//! generic over [`Scalar`], which fixes for every operation a specification
//! function and an executable function that computes it. An implementation
//! decides what the numbers are: [`crate::fixed::Fixed`] is an exact
//! fixed-point one; a caller may supply hardware floating point.

use vstd::prelude::*;

verus! {

/// A totally defined number type.
///
/// No algebraic law is asked of an implementation: results proved for generic
/// code hold of the operations as they are, rounding included. Every
/// executable operation must be a function of its operands, which is what its
/// specification twin states.
pub trait Scalar: Sized + Copy {
    /// The additive identity.
    spec fn spec_zero() -> Self;

    /// The multiplicative identity; also the end of the parameter range.
    spec fn spec_one() -> Self;

    /// The distance under which two knots count as one.
    spec fn spec_epsilon() -> Self;

    /// The number that stands for a count of steps.
    spec fn spec_from_count(n: usize) -> Self;

    /// `self + rhs`.
    spec fn spec_plus(self, rhs: Self) -> Self;

    /// `self - rhs`.
    spec fn spec_minus(self, rhs: Self) -> Self;

    /// `self * rhs`.
    spec fn spec_times(self, rhs: Self) -> Self;

    /// `self / rhs`. Defined for every divisor, zero included.
    spec fn spec_over(self, rhs: Self) -> Self;

    /// `|self|`.
    spec fn spec_magnitude(self) -> Self;

    /// `self < rhs`.
    spec fn spec_less(self, rhs: Self) -> bool;

    fn zero() -> (r: Self)
        ensures
            r == Self::spec_zero(),
    ;

    fn one() -> (r: Self)
        ensures
            r == Self::spec_one(),
    ;

    fn epsilon() -> (r: Self)
        ensures
            r == Self::spec_epsilon(),
    ;

    fn from_count(n: usize) -> (r: Self)
        ensures
            r == Self::spec_from_count(n),
    ;

    fn plus(self, rhs: Self) -> (r: Self)
        ensures
            r == self.spec_plus(rhs),
    ;

    fn minus(self, rhs: Self) -> (r: Self)
        ensures
            r == self.spec_minus(rhs),
    ;

    fn times(self, rhs: Self) -> (r: Self)
        ensures
            r == self.spec_times(rhs),
    ;

    fn over(self, rhs: Self) -> (r: Self)
        ensures
            r == self.spec_over(rhs),
    ;

    fn magnitude(self) -> (r: Self)
        ensures
            r == self.spec_magnitude(),
    ;

    fn less(self, rhs: Self) -> (r: bool)
        ensures
            r == self.spec_less(rhs),
    ;
}

/// Whether `a` and `b` differ by less than the scalar's epsilon.
pub open spec fn spec_nearly_equal<S: Scalar>(a: S, b: S) -> bool {
    a.spec_minus(b).spec_magnitude().spec_less(S::spec_epsilon())
}

/// Tests whether `a` and `b` differ by less than the scalar's epsilon.
pub fn nearly_equal<S: Scalar>(a: S, b: S) -> (r: bool)
    ensures
        r == spec_nearly_equal(a, b),
{
    a.minus(b).magnitude().less(S::epsilon())
}

} // verus!
