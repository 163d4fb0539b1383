//! Rational B-spline curves, sampled at equal steps of the curve parameter.
//!
//! The basis functions are computed with the triangular scheme of
//! Jankauskas, "Time-efficient NURBS curve evaluation algorithms" (2010):
//! for one parameter value only the `degree + 1` functions that can be
//! non-zero are built, level by level, in scratch arrays that are reused for
//! every sample.

use crate::geometry::Point3;
use crate::scalar::{nearly_equal, spec_nearly_equal, Scalar};
use vstd::prelude::*;

verus! {

/// What a [`Spline`] consists of.
pub ghost struct SplineModel<S> {
    /// The degree of the basis polynomials.
    pub degree: nat,
    /// The control points, each a weight and a position.
    pub controls: Seq<(S, Point3<S>)>,
    /// The knot vector, normalized to the range from zero to one.
    pub knots: Seq<S>,
}

impl<S: Scalar> SplineModel<S> {
    /// The lengths fit together: more control points than the degree, and
    /// `degree + 1` more knots than control points.
    pub open spec fn well_shaped(self) -> bool {
        &&& self.degree < self.controls.len()
        &&& self.knots.len() == self.controls.len() + self.degree + 1
    }

    /// The index of the last knot span that has `degree + 1` control points.
    pub open spec fn last_span(self) -> int {
        self.controls.len() - 1
    }

    /// How far `u` lies right of the knot `j - 1` places below the end of span `k`.
    pub open spec fn left(self, k: int, u: S, j: int) -> S {
        u.spec_minus(self.knots[k + 1 - j])
    }

    /// How far `u` lies left of the knot `j` places above the start of span `k`.
    pub open spec fn right(self, k: int, u: S, j: int) -> S {
        self.knots[k + j].spec_minus(u)
    }

    /// Basis function `r` of level `j - 1`, over the width of its support
    /// in level `j`.
    pub open spec fn ratio(self, k: int, u: S, j: int, r: int) -> S
        decreases j, 0nat,
    {
        if j <= 0 {
            S::spec_zero()
        } else {
            self.basis(k, u, j - 1, r).spec_over(
                self.right(k, u, r + 1).spec_plus(self.left(k, u, j - r)),
            )
        }
    }

    /// The share of basis function `r - 1` of level `j - 1` that goes to
    /// function `r` of level `j`.
    pub open spec fn carry(self, k: int, u: S, j: int, r: int) -> S
        decreases j, 1nat,
    {
        if r <= 0 {
            S::spec_zero()
        } else {
            self.left(k, u, j - r + 1).spec_times(self.ratio(k, u, j, r - 1))
        }
    }

    /// The value at `u` of basis function `r` of level `j` on span `k`,
    /// for `0 <= r <= j`: the function of degree `j` that belongs to control
    /// point `k - j + r`.
    pub open spec fn basis(self, k: int, u: S, j: int, r: int) -> S
        decreases j, 2nat,
    {
        if j <= 0 {
            S::spec_one()
        } else if r < j {
            self.carry(k, u, j, r).spec_plus(
                self.right(k, u, r + 1).spec_times(self.ratio(k, u, j, r)),
            )
        } else {
            self.carry(k, u, j, r)
        }
    }

    /// The `degree + 1` basis values that can be non-zero on span `k`, at `u`.
    pub open spec fn basis_values(self, k: int, u: S) -> Seq<S> {
        Seq::new(self.degree + 1, |i: int| self.basis(k, u, self.degree as int, i))
    }

    /// Basis value `i` times the weight of the control point that it belongs
    /// to on span `k`.
    pub open spec fn weighted(self, bases: Seq<S>, k: int, i: int) -> S {
        bases[i].spec_times(self.controls[k - self.degree + i].0)
    }

    /// The sum of the first `count` weighted basis values, added up from
    /// zero in the order of their index.
    pub open spec fn weight_sum(self, bases: Seq<S>, k: int, count: int) -> S
        decreases count,
    {
        if count <= 0 {
            S::spec_zero()
        } else {
            self.weight_sum(bases, k, count - 1).spec_plus(self.weighted(bases, k, count - 1))
        }
    }

    /// The sum of the first `count` control positions of span `k`, each
    /// scaled by its weighted basis value, added up from the origin in the
    /// order of their index.
    pub open spec fn position_sum(self, bases: Seq<S>, k: int, count: int) -> Point3<S>
        decreases count,
    {
        if count <= 0 {
            Point3::spec_origin()
        } else {
            self.position_sum(bases, k, count - 1).spec_plus(
                self.controls[k - self.degree + count - 1].1.spec_scaled(
                    self.weighted(bases, k, count - 1),
                ),
            )
        }
    }

    /// The rational combination of the control points of span `k` under the
    /// given basis values: the weighted positions over the weights.
    pub open spec fn blend(self, bases: Seq<S>, k: int) -> Point3<S> {
        self.position_sum(bases, k, self.degree as int + 1).spec_divided(
            self.weight_sum(bases, k, self.degree as int + 1),
        )
    }

    /// The point of the curve at parameter `u`, taken on span `k`.
    pub open spec fn point_at(self, k: int, u: S) -> Point3<S> {
        self.blend(self.basis_values(k, u), k)
    }

    /// The distance in parameter between two of `n` samples.
    pub open spec fn step(n: usize) -> S {
        S::spec_one().spec_over(S::spec_from_count((n - 1) as usize))
    }

    /// The parameter of sample `i >= 1` of `n`: `i` steps added, one by one,
    /// to the knot at which the curve starts.
    pub open spec fn parameter(self, n: usize, i: int) -> S
        decreases i,
    {
        if i <= 1 {
            self.knots[self.degree as int].spec_plus(Self::step(n))
        } else {
            self.parameter(n, i - 1).spec_plus(Self::step(n))
        }
    }

    /// Whether the search for the span of `u` leaves span `k`: it is not the
    /// last one, and either it is a repeated knot below one, or `u` is not
    /// below its upper end.
    pub open spec fn advances(self, k: int, u: S) -> bool {
        &&& k < self.last_span()
        &&& {
            ||| spec_nearly_equal(self.knots[k], self.knots[k + 1]) && self.knots[k].spec_less(
                S::spec_one(),
            )
            ||| !u.spec_less(self.knots[k + 1])
        }
    }

    /// The span on which `u` is evaluated when the search starts at span `k`.
    /// The search only moves forward.
    pub open spec fn locate(self, k: int, u: S) -> int
        decreases self.last_span() - k,
    {
        if self.advances(k, u) {
            self.locate(k + 1, u)
        } else {
            k
        }
    }

    /// The span of sample `i` of `n`. The search for it starts where that of
    /// the sample before ended; before the first it stands at `degree`.
    pub open spec fn span(self, n: usize, i: int) -> int
        decreases i,
    {
        if i <= 0 {
            self.degree as int
        } else {
            self.locate(self.span(n, i - 1), self.parameter(n, i))
        }
    }

    /// Sample `i` of `n`, for `0 < i < n - 1`.
    pub open spec fn sample(self, n: usize, i: int) -> Point3<S> {
        self.point_at(self.span(n, i), self.parameter(n, i))
    }

    /// The `n` samples of the curve: the first control position, the
    /// interior samples, the last control position.
    pub open spec fn points(self, n: usize) -> Seq<Point3<S>> {
        Seq::new(
            n as nat,
            |i: int|
                if i == 0 {
                    self.controls[0].1
                } else if i == n - 1 {
                    self.controls[self.last_span()].1
                } else {
                    self.sample(n, i)
                },
        )
    }
}

/// Why a curve could not be sampled.
#[derive(Clone, Copy, Debug, PartialEq, Eq, Structural)]
pub enum SplineError {
    /// Fewer than two samples were asked for.
    InvalidArgument,
    /// The numbers of knots and control points do not fit the degree.
    Malformed,
}

/// A rational B-spline curve: weighted control points and a knot vector.
///
/// A curve is built of whatever it is given. Its description is meant to
/// be well shaped, with more control points than the degree and
/// `degree + 1` more knots than control points, and its knots to be
/// normalized and clamped: none below zero or above one, none smaller than
/// the one before it, the first `degree + 1` of them zero and the last
/// `degree + 1` one. Sampling tests the shape and nothing else: a curve
/// that is not well shaped is refused, and one whose knots or weights are
/// out of order is sampled as it is.
#[derive(Debug)]
pub struct Spline<S: Scalar> {
    degree: usize,
    c_points: Vec<(S, Point3<S>)>,
    knots: Vec<S>,
}

impl<S: Scalar> View for Spline<S> {
    type V = SplineModel<S>;

    closed spec fn view(&self) -> SplineModel<S> {
        SplineModel { degree: self.degree as nat, controls: self.c_points@, knots: self.knots@ }
    }
}

impl<S: Scalar> Spline<S> {
    /// Whether a degree and two lengths are those of a well shaped curve.
    pub fn fits(degree: usize, control_count: usize, knot_count: usize) -> (r: bool)
        ensures
            r == (degree < control_count && knot_count == control_count + degree + 1),
    {
        degree < control_count && knot_count > degree && knot_count - degree - 1 == control_count
    }

    /// The curve of the given degree, control points and knots. Nothing is
    /// asked of them and nothing is tested.
    pub fn new(degree: usize, c_points: Vec<(S, Point3<S>)>, knots: Vec<S>) -> (r: Spline<S>)
        ensures
            r@ == (SplineModel { degree: degree as nat, controls: c_points@, knots: knots@ }),
    {
        Spline { degree, c_points, knots }
    }

    /// Whether the curve is well shaped.
    pub fn is_well_shaped(&self) -> (r: bool)
        ensures
            r == self@.well_shaped(),
    {
        Self::fits(self.degree, self.c_points.len(), self.knots.len())
    }

    /// Computes into the first `degree + 1` places of `bases` the basis
    /// values that can be non-zero on span `k`, at `u`. The places `1` to
    /// `degree` of `ls` and `rs` serve as scratch; what the three slices
    /// held there before does not matter, and their other places are left
    /// alone.
    fn basis_its_0_no_alloc(&self, k: usize, u: S, bases: &mut [S], ls: &mut [S], rs: &mut [S])
        requires
            self@.well_shaped(),
            self@.degree <= k <= self@.last_span(),
            old(bases)@.len() >= self@.degree + 1,
            old(ls)@.len() >= self@.degree + 1,
            old(rs)@.len() >= self@.degree + 1,
        ensures
            final(bases)@.len() == old(bases)@.len(),
            final(ls)@.len() == old(ls)@.len(),
            final(rs)@.len() == old(rs)@.len(),
            forall|i: int|
                0 <= i <= self@.degree ==> #[trigger] final(bases)@[i] == self@.basis(
                    k as int,
                    u,
                    self@.degree as int,
                    i,
                ),
            forall|i: int|
                self@.degree < i < old(bases)@.len() ==> #[trigger] final(bases)@[i] == old(
                    bases,
                )@[i],
            forall|i: int|
                1 <= i <= self@.degree ==> #[trigger] final(ls)@[i] == self@.left(k as int, u, i),
            forall|i: int|
                1 <= i <= self@.degree ==> #[trigger] final(rs)@[i] == self@.right(k as int, u, i),
            forall|i: int|
                (i == 0 || self@.degree < i < old(ls)@.len()) ==> #[trigger] final(ls)@[i] == old(
                    ls,
                )@[i],
            forall|i: int|
                (i == 0 || self@.degree < i < old(rs)@.len()) ==> #[trigger] final(rs)@[i] == old(
                    rs,
                )@[i],
    {
        assert(self.knots@.len() <= usize::MAX) by {
            assert(self.knots.len() == self.knots@.len());
        }
        bases[0] = S::one();
        let mut j: usize = 1;
        while j <= self.degree
            invariant
                self@.well_shaped(),
                self@.knots.len() <= usize::MAX,
                self@.degree <= k <= self@.last_span(),
                1 <= j <= self@.degree + 1,
                bases@.len() == old(bases)@.len(),
                ls@.len() == old(ls)@.len(),
                rs@.len() == old(rs)@.len(),
                bases@.len() >= self@.degree + 1,
                ls@.len() >= self@.degree + 1,
                rs@.len() >= self@.degree + 1,
                forall|i: int|
                    0 <= i < j ==> #[trigger] bases@[i] == self@.basis(k as int, u, j - 1, i),
                forall|i: int| j <= i < bases@.len() ==> #[trigger] bases@[i] == old(bases)@[i],
                forall|i: int| 1 <= i < j ==> #[trigger] ls@[i] == self@.left(k as int, u, i),
                forall|i: int| 1 <= i < j ==> #[trigger] rs@[i] == self@.right(k as int, u, i),
                forall|i: int|
                    (i == 0 || j <= i < ls@.len()) ==> #[trigger] ls@[i] == old(ls)@[i],
                forall|i: int|
                    (i == 0 || j <= i < rs@.len()) ==> #[trigger] rs@[i] == old(rs)@[i],
            decreases self@.degree + 1 - j,
        {
            let mut saved = S::zero();
            ls[j] = u.minus(self.knots[k + 1 - j]);
            rs[j] = self.knots[k + j].minus(u);
            let mut r: usize = 0;
            while r < j
                invariant
                    self@.well_shaped(),
                    self@.degree <= k <= self@.last_span(),
                    1 <= j <= self@.degree,
                    r <= j,
                    bases@.len() == old(bases)@.len(),
                    ls@.len() == old(ls)@.len(),
                    rs@.len() == old(rs)@.len(),
                    bases@.len() >= self@.degree + 1,
                    ls@.len() >= self@.degree + 1,
                    rs@.len() >= self@.degree + 1,
                    forall|i: int|
                        0 <= i < r ==> #[trigger] bases@[i] == self@.basis(
                            k as int,
                            u,
                            j as int,
                            i,
                        ),
                    forall|i: int|
                        r <= i < j ==> #[trigger] bases@[i] == self@.basis(k as int, u, j - 1, i),
                    forall|i: int|
                        j <= i < bases@.len() ==> #[trigger] bases@[i] == old(bases)@[i],
                    forall|i: int| 1 <= i <= j ==> #[trigger] ls@[i] == self@.left(k as int, u, i),
                    forall|i: int| 1 <= i <= j ==> #[trigger] rs@[i] == self@.right(k as int, u, i),
                    forall|i: int|
                        (i == 0 || j < i < ls@.len()) ==> #[trigger] ls@[i] == old(ls)@[i],
                    forall|i: int|
                        (i == 0 || j < i < rs@.len()) ==> #[trigger] rs@[i] == old(rs)@[i],
                    saved == self@.carry(k as int, u, j as int, r as int),
                decreases j - r,
            {
                let tmp = bases[r].over(rs[r + 1].plus(ls[j - r]));
                assert(tmp == self@.ratio(k as int, u, j as int, r as int));
                bases[r] = saved.plus(rs[r + 1].times(tmp));
                saved = ls[j - r].times(tmp);
                r += 1;
            }
            bases[j] = saved;
            j += 1;
        }
    }

    /// The `degree + 1` basis values that can be non-zero on span `k`, at `u`.
    pub fn basis_its_0(&self, k: usize, u: S) -> (bases: Vec<S>)
        requires
            self@.well_shaped(),
            self@.degree <= k <= self@.last_span(),
        ensures
            bases@ == self@.basis_values(k as int, u),
            bases@.len() == self@.degree + 1,
    {
        assert(self.c_points@.len() <= usize::MAX) by {
            assert(self.c_points.len() == self.c_points@.len());
        }
        let mut bases = vec![S::zero(); self.degree + 1];
        let mut ls = vec![S::zero(); self.degree + 1];
        let mut rs = vec![S::zero(); self.degree + 1];
        self.basis_its_0_no_alloc(k, u, bases.as_mut_slice(), ls.as_mut_slice(), rs.as_mut_slice());
        assert(bases@ =~= self@.basis_values(k as int, u));
        bases
    }

    /// Blends the control points of span `k` under the basis values in the
    /// first `degree + 1` places of `bases`, and leaves in each of those
    /// places the basis value times the weight of its control point. The
    /// other places of `bases` are left alone.
    fn get_point_0(&self, bases: &mut [S], k: usize) -> (point: Point3<S>)
        requires
            self@.well_shaped(),
            self@.degree <= k <= self@.last_span(),
            old(bases)@.len() >= self@.degree + 1,
        ensures
            point == self@.blend(old(bases)@, k as int),
            final(bases)@.len() == old(bases)@.len(),
            forall|i: int|
                0 <= i <= self@.degree ==> #[trigger] final(bases)@[i] == self@.weighted(
                    old(bases)@,
                    k as int,
                    i,
                ),
            forall|i: int|
                self@.degree < i < old(bases)@.len() ==> #[trigger] final(bases)@[i] == old(
                    bases,
                )@[i],
    {
        assert(self.c_points@.len() <= usize::MAX) by {
            assert(self.c_points.len() == self.c_points@.len());
        }
        let mut bases_sum = S::zero();
        let mut point = Point3::origin();
        let mut i: usize = 0;
        while i <= self.degree
            invariant
                self@.well_shaped(),
                self@.controls.len() <= usize::MAX,
                self@.degree <= k <= self@.last_span(),
                i <= self@.degree + 1,
                bases@.len() == old(bases)@.len(),
                bases@.len() >= self@.degree + 1,
                forall|j: int|
                    0 <= j < i ==> #[trigger] bases@[j] == self@.weighted(old(bases)@, k as int, j),
                forall|j: int| i <= j < bases@.len() ==> #[trigger] bases@[j] == old(bases)@[j],
                bases_sum == self@.weight_sum(old(bases)@, k as int, i as int),
                point == self@.position_sum(old(bases)@, k as int, i as int),
            decreases self@.degree + 1 - i,
        {
            let c_point = self.c_points[k - self.degree + i];
            let base = bases[i].times(c_point.0);
            bases[i] = base;
            bases_sum = bases_sum.plus(base);
            point = point.plus(c_point.1.scaled(base));
            i += 1;
        }
        point.divided(bases_sum)
    }

    fn advances(&self, k: usize, u: S) -> (r: bool)
        requires
            self@.well_shaped(),
            self@.degree <= k <= self@.last_span(),
        ensures
            r == self@.advances(k as int, u),
    {
        assert(self.knots@.len() <= usize::MAX) by {
            assert(self.knots.len() == self.knots@.len());
        }
        if k + 1 < self.c_points.len() {
            let lower = self.knots[k];
            let upper = self.knots[k + 1];
            (nearly_equal(lower, upper) && lower.less(S::one())) || !u.less(upper)
        } else {
            false
        }
    }

    fn locate(&self, start: usize, u: S) -> (k: usize)
        requires
            self@.well_shaped(),
            self@.degree <= start <= self@.last_span(),
        ensures
            k == self@.locate(start as int, u),
            start <= k <= self@.last_span(),
    {
        assert(self.c_points@.len() <= usize::MAX) by {
            assert(self.c_points.len() == self.c_points@.len());
        }
        let mut k = start;
        while self.advances(k, u)
            invariant
                self@.well_shaped(),
                self@.controls.len() <= usize::MAX,
                start <= k <= self@.last_span(),
                self@.degree <= k,
                self@.locate(k as int, u) == self@.locate(start as int, u),
            decreases self@.last_span() - k,
        {
            k += 1;
        }
        k
    }

    /// Samples the curve at `step_count` equally spaced parameter values.
    ///
    /// Fewer than two samples are refused as an invalid argument. For two
    /// or more the shape of the curve is tested, and a curve that is not
    /// well shaped is refused as malformed. Nothing else is tested.
    ///
    /// The first and the last sample are the first and the last control
    /// position themselves. The samples between them are computed, one
    /// parameter step after the other, on the knot span that the search
    /// described by [`SplineModel::locate`] finds; that search never leaves
    /// the last span, so exactly `step_count` points come back whatever the
    /// knots hold. Where a sum of weighted basis values is zero, the point
    /// is whatever the scalar's division gives.
    pub fn get_points(&self, step_count: usize) -> (r: Result<Vec<Point3<S>>, SplineError>)
        ensures
            step_count < 2 ==> r == Err::<Vec<Point3<S>>, SplineError>(SplineError::InvalidArgument),
            step_count >= 2 && !self@.well_shaped() ==> r == Err::<Vec<Point3<S>>, SplineError>(
                SplineError::Malformed,
            ),
            step_count >= 2 && self@.well_shaped() ==> r is Ok,
            (r matches Ok(points) ==> {
                &&& points@ == self@.points(step_count)
                &&& points@.len() == step_count
                &&& points@[0] == self@.controls[0].1
                &&& points@[step_count - 1] == self@.controls[self@.last_span()].1
            }),
    {
        if step_count < 2 {
            return Err(SplineError::InvalidArgument);
        }
        if !self.is_well_shaped() {
            return Err(SplineError::Malformed);
        }
        assert(self.c_points@.len() <= usize::MAX) by {
            assert(self.c_points.len() == self.c_points@.len());
        }
        let mut bases = vec![S::zero(); self.degree + 1];
        let mut ls = vec![S::zero(); self.degree + 1];
        let mut rs = vec![S::zero(); self.degree + 1];
        let mut points: Vec<Point3<S>> = Vec::new();

        let step = S::one().over(S::from_count(step_count - 1));

        points.push(self.c_points[0].1);

        let mut u = self.knots[self.degree].plus(step);
        let mut k = self.degree;
        let mut i: usize = 1;
        while i < step_count - 1
            invariant
                self@.well_shaped(),
                step_count >= 2,
                step == SplineModel::<S>::step(step_count),
                1 <= i <= step_count - 1,
                points@.len() == i,
                self@.degree <= k <= self@.last_span(),
                k == self@.span(step_count, i - 1),
                u == self@.parameter(step_count, i as int),
                bases@.len() == self@.degree + 1,
                ls@.len() == self@.degree + 1,
                rs@.len() == self@.degree + 1,
                forall|j: int| 0 <= j < i ==> #[trigger] points@[j] == self@.points(step_count)[j],
            decreases step_count - i,
        {
            k = self.locate(k, u);
            self.basis_its_0_no_alloc(k, u, bases.as_mut_slice(), ls.as_mut_slice(), rs.as_mut_slice());
            assert(bases@ =~= self@.basis_values(k as int, u));
            let point = self.get_point_0(bases.as_mut_slice(), k);
            points.push(point);
            u = u.plus(step);
            i += 1;
        }

        points.push(self.c_points[self.c_points.len() - 1].1);
        assert(points@ =~= self@.points(step_count));
        Ok(points)
    }
}

/// The search for a span only moves forward and stays among the spans of
/// the curve, and it ends on a span that it does not leave.
pub proof fn lemma_locate_moves_forward<S: Scalar>(curve: SplineModel<S>, k: int, u: S)
    requires
        k <= curve.last_span(),
    ensures
        k <= curve.locate(k, u) <= curve.last_span(),
        !curve.advances(curve.locate(k, u), u),
    decreases curve.last_span() - k,
{
    if curve.advances(k, u) {
        lemma_locate_moves_forward(curve, k + 1, u);
    }
}

/// From sample to sample the span only moves forward: every sample is
/// taken on a span between `degree` and the last, and none on a span
/// before that of the sample before it.
pub proof fn lemma_span_moves_forward<S: Scalar>(curve: SplineModel<S>, n: usize, i: int)
    requires
        curve.well_shaped(),
        i >= 0,
    ensures
        curve.degree <= curve.span(n, i) <= curve.last_span(),
        curve.span(n, i) <= curve.span(n, i + 1),
    decreases i,
{
    if i > 0 {
        lemma_span_moves_forward(curve, n, i - 1);
        lemma_locate_moves_forward(curve, curve.span(n, i - 1), curve.parameter(n, i));
    }
    lemma_locate_moves_forward(curve, curve.span(n, i), curve.parameter(n, i + 1));
}

/// Sampling at `n >= 2` values gives exactly `n` points, of which the first
/// is the first control position and the last is the last control position,
/// exactly as they were given.
pub proof fn lemma_points_interpolate_ends<S: Scalar>(curve: SplineModel<S>, n: usize)
    requires
        n >= 2,
    ensures
        curve.points(n).len() == n,
        curve.points(n)[0] == curve.controls[0].1,
        curve.points(n)[n - 1] == curve.controls[curve.controls.len() - 1].1,
{
}

/// Sampling is a function of the curve and the count: whatever two calls of
/// [`Spline::get_points`] return for equal curves and equal counts is equal.
pub proof fn lemma_get_points_is_deterministic<S: Scalar>(
    a: &Spline<S>,
    b: &Spline<S>,
    n: usize,
    first: Result<Vec<Point3<S>>, SplineError>,
    second: Result<Vec<Point3<S>>, SplineError>,
)
    requires
        a@ == b@,
        call_ensures(Spline::<S>::get_points, (a, n), first),
        call_ensures(Spline::<S>::get_points, (b, n), second),
    ensures
        first is Ok <==> second is Ok,
        first matches Ok(p) ==> second matches Ok(q) && p@ == q@,
        first matches Err(e) ==> second matches Err(f) && e == f,
{
}

} // verus!
