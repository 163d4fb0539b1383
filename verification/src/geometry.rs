//! Coordinate spaces, points, and the curves drawn on the canvas.

use crate::scalar::Scalar;
use vstd::prelude::*;

pub mod nurbs;

verus! {

/// Marks coordinates of the model being edited.
#[derive(Clone, Copy, Debug)]
pub struct ModelSpace;

/// Marks coordinates of the canvas, before zoom and pan.
#[derive(Clone, Copy, Debug)]
pub struct CanvasSpace;

/// Marks normalized device coordinates.
#[derive(Clone, Copy, Debug)]
pub struct ScreenSpace;

/// Marks window pixels.
#[derive(Clone, Copy, Debug)]
pub struct PixelSpace;

/// A position, or a displacement, with three coordinates.
#[derive(Copy, Debug, PartialEq)]
pub struct Point3<S> {
    pub x: S,
    pub y: S,
    pub z: S,
}

impl<S: Copy> Clone for Point3<S> {
    fn clone(&self) -> (r: Self)
        ensures
            r == *self,
    {
        *self
    }
}

impl<S: Scalar> Point3<S> {
    /// The point whose coordinates are all zero.
    pub open spec fn spec_origin() -> Self {
        Point3 { x: S::spec_zero(), y: S::spec_zero(), z: S::spec_zero() }
    }

    /// The coordinatewise sum.
    pub open spec fn spec_plus(self, rhs: Self) -> Self {
        Point3 {
            x: self.x.spec_plus(rhs.x),
            y: self.y.spec_plus(rhs.y),
            z: self.z.spec_plus(rhs.z),
        }
    }

    /// Every coordinate times `factor`.
    pub open spec fn spec_scaled(self, factor: S) -> Self {
        Point3 {
            x: self.x.spec_times(factor),
            y: self.y.spec_times(factor),
            z: self.z.spec_times(factor),
        }
    }

    /// Every coordinate over `divisor`.
    pub open spec fn spec_divided(self, divisor: S) -> Self {
        Point3 {
            x: self.x.spec_over(divisor),
            y: self.y.spec_over(divisor),
            z: self.z.spec_over(divisor),
        }
    }

    pub fn new(x: S, y: S, z: S) -> (r: Self)
        ensures
            r == (Point3 { x, y, z }),
    {
        Point3 { x, y, z }
    }

    pub fn origin() -> (r: Self)
        ensures
            r == Self::spec_origin(),
    {
        Point3 { x: S::zero(), y: S::zero(), z: S::zero() }
    }

    pub fn plus(self, rhs: Self) -> (r: Self)
        ensures
            r == self.spec_plus(rhs),
    {
        Point3 { x: self.x.plus(rhs.x), y: self.y.plus(rhs.y), z: self.z.plus(rhs.z) }
    }

    pub fn scaled(self, factor: S) -> (r: Self)
        ensures
            r == self.spec_scaled(factor),
    {
        Point3 { x: self.x.times(factor), y: self.y.times(factor), z: self.z.times(factor) }
    }

    pub fn divided(self, divisor: S) -> (r: Self)
        ensures
            r == self.spec_divided(divisor),
    {
        Point3 { x: self.x.over(divisor), y: self.y.over(divisor), z: self.z.over(divisor) }
    }
}

/// The sides of the closed polygon through the points of `region`, each by
/// its two ends: from every point to the next, and from the last back to
/// the first.
pub open spec fn spec_outline<P>(region: Seq<P>) -> Seq<(P, P)> {
    Seq::new(
        region.len(),
        |i: int|
            (
                region[i],
                if i + 1 < region.len() {
                    region[i + 1]
                } else {
                    region[0]
                },
            ),
    )
}

/// Computes the sides of the closed polygon through the points of `region`.
pub fn outline<P: Copy>(region: &[P]) -> (sides: Vec<(P, P)>)
    ensures
        sides@ == spec_outline(region@),
{
    let mut sides: Vec<(P, P)> = Vec::new();
    let mut i: usize = 0;
    while i < region.len()
        invariant
            i <= region@.len(),
            sides@.len() == i,
            forall|j: int| 0 <= j < i ==> #[trigger] sides@[j] == spec_outline(region@)[j],
        decreases region@.len() - i,
    {
        let next = if i + 1 < region.len() {
            region[i + 1]
        } else {
            region[0]
        };
        sides.push((region[i], next));
        i += 1;
    }
    assert(sides@ =~= spec_outline(region@));
    sides
}

} // verus!
