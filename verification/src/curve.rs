//! Points of the curve `y^2 = x^3 + 3` over a field, and their group law.
use vstd::prelude::*;
use crate::field::element::FieldElement;
use crate::field::prime::PlutoBaseField;
use crate::field::extension::PlutoBaseFieldExtension;

verus! {

/// A point of the curve in affine coordinates, or the point at infinity.
#[derive(Clone, Copy, Debug, PartialEq, Eq)]
pub enum AffinePoint<F> {
    /// The point with the given `x` and `y`.
    Point(F, F),
    /// The point at infinity, the identity of the group.
    Infinity,
}

/// Whether `x` and `y` satisfy the curve's equation.
pub open spec fn on_curve<F: FieldElement>(x: F, y: F) -> bool {
    y.product(y) == x.product(x).product(x).sum(F::small_value(3))
}

/// Whether the coordinates of the point, if it has any, are field elements.
pub open spec fn point_valid<F: FieldElement>(p: AffinePoint<F>) -> bool {
    match p {
        AffinePoint::Point(x, y) => x.valid() && y.valid(),
        AffinePoint::Infinity => true,
    }
}

/// The slope of the line through two points with coordinates, which is the
/// tangent where they are the same point.
pub open spec fn slope<F: FieldElement>(x1: F, y1: F, x2: F, y2: F) -> F {
    if x1 == x2 && y1 == y2 {
        F::small_value(3).product(x1).product(x1).quotient(F::small_value(2).product(y1))
    } else {
        y2.difference(y1).quotient(x2.difference(x1))
    }
}

/// The sum of two points: the chord-and-tangent law.
pub open spec fn point_sum<F: FieldElement>(p: AffinePoint<F>, q: AffinePoint<F>) -> AffinePoint<
    F,
> {
    match (p, q) {
        (AffinePoint::Infinity, _) => q,
        (_, AffinePoint::Infinity) => p,
        (AffinePoint::Point(x1, y1), AffinePoint::Point(x2, y2)) => {
            if x1 == x2 && y1 == y2.negation() {
                AffinePoint::Infinity
            } else {
                let lambda = slope(x1, y1, x2, y2);
                let x = lambda.product(lambda).difference(x1).difference(x2);
                let y = lambda.product(x1.difference(x)).difference(y1);
                AffinePoint::Point(x, y)
            }
        },
    }
}

/// The sum of `n` copies of a point.
pub open spec fn point_multiple<F: FieldElement>(p: AffinePoint<F>, n: nat) -> AffinePoint<F>
    decreases n,
{
    if n == 0 {
        AffinePoint::Infinity
    } else {
        point_sum(point_multiple(p, (n - 1) as nat), p)
    }
}

/// The generator of the group of the curve over the base field.
pub open spec fn base_generator() -> AffinePoint<PlutoBaseField> {
    AffinePoint::Point(PlutoBaseField { value: 1 }, PlutoBaseField { value: 2 })
}

/// The point of the extended curve that a point of the base curve is taken
/// to: its `x` is multiplied by the cube root of unity.
pub open spec fn extended_point(p: AffinePoint<PlutoBaseField>) -> AffinePoint<
    PlutoBaseFieldExtension,
> {
    match p {
        AffinePoint::Point(x, y) => AffinePoint::Point(
            PlutoBaseFieldExtension::cube_root_of_unity_value().product(
                PlutoBaseFieldExtension { c0: x, c1: PlutoBaseField::small_value(0) },
            ),
            PlutoBaseFieldExtension { c0: y, c1: PlutoBaseField::small_value(0) },
        ),
        AffinePoint::Infinity => AffinePoint::Infinity,
    }
}

impl<F: FieldElement> AffinePoint<F> {
    /// The point with the given coordinates, where they satisfy the curve's
    /// equation.
    pub fn new(x: F, y: F) -> (r: Option<Self>)
        requires
            x.valid(),
            y.valid(),
        ensures
            r.is_some() == on_curve(x, y),
            r matches Some(p) ==> p == AffinePoint::Point(x, y),
    {
        proof {
            x.lemma_valid_usable();
        }
        let lhs = y.mul(y);
        let rhs = x.mul(x).mul(x).add(F::small(3));
        if lhs.same(rhs) {
            Some(AffinePoint::Point(x, y))
        } else {
            None
        }
    }

    /// Whether this is the point at infinity.
    pub fn is_infinity(self) -> (r: bool)
        ensures
            r == (self == AffinePoint::<F>::Infinity),
    {
        match self {
            AffinePoint::Point(_, _) => false,
            AffinePoint::Infinity => true,
        }
    }

    /// Whether the two points are the same.
    pub fn same(self, rhs: Self) -> (r: bool)
        requires
            point_valid(self),
            point_valid(rhs),
        ensures
            r == (self == rhs),
    {
        match (self, rhs) {
            (AffinePoint::Infinity, AffinePoint::Infinity) => true,
            (AffinePoint::Point(x1, y1), AffinePoint::Point(x2, y2)) => x1.same(x2) && y1.same(
                y2,
            ),
            _ => false,
        }
    }

    /// The sum of two points.
    pub fn add(self, rhs: Self) -> (r: Self)
        requires
            point_valid(self),
            point_valid(rhs),
        ensures
            point_valid(r),
            r == point_sum(self, rhs),
    {
        match (self, rhs) {
            (AffinePoint::Infinity, _) => rhs,
            (_, AffinePoint::Infinity) => self,
            (AffinePoint::Point(x1, y1), AffinePoint::Point(x2, y2)) => {
                proof {
                    x1.lemma_valid_usable();
                }
                if x1.same(x2) && y1.same(y2.neg()) {
                    AffinePoint::Infinity
                } else {
                    let lambda = if x1.same(x2) && y1.same(y2) {
                        F::small(3).mul(x1).mul(x1).div(F::small(2).mul(y1))
                    } else {
                        y2.sub(y1).div(x2.sub(x1))
                    };
                    let x = lambda.mul(lambda).sub(x1).sub(x2);
                    let y = lambda.mul(x1.sub(x)).sub(y1);
                    AffinePoint::Point(x, y)
                }
            },
        }
    }

    /// The sum of `n` copies of the point.
    pub fn multiply(self, n: usize) -> (r: Self)
        requires
            point_valid(self),
        ensures
            point_valid(r),
            r == point_multiple(self, n as nat),
    {
        let mut acc: AffinePoint<F> = AffinePoint::Infinity;
        let mut i: usize = 0;
        while i < n
            invariant
                i <= n,
                point_valid(self),
                point_valid(acc),
                acc == point_multiple(self, i as nat),
            decreases n - i,
        {
            acc = acc.add(self);
            i += 1;
        }
        acc
    }
}

/// The generator of the group of the curve over the base field: `(1, 2)`.
pub fn generator() -> (r: AffinePoint<PlutoBaseField>)
    ensures
        point_valid(r),
        r == base_generator(),
{
    AffinePoint::Point(PlutoBaseField { value: 1 }, PlutoBaseField { value: 2 })
}

/// The point of the extended curve that a point of the base curve is taken
/// to.
pub fn convert_to_extended(point: AffinePoint<PlutoBaseField>) -> (r: AffinePoint<
    PlutoBaseFieldExtension,
>)
    requires
        point_valid(point),
    ensures
        point_valid(r),
        r == extended_point(point),
{
    match point {
        AffinePoint::Point(x, y) => {
            let cube_root = PlutoBaseFieldExtension::cube_root_of_unity();
            AffinePoint::Point(
                cube_root.mul(PlutoBaseFieldExtension::from_base(x)),
                PlutoBaseFieldExtension::from_base(y),
            )
        },
        AffinePoint::Infinity => AffinePoint::Infinity,
    }
}

} // verus!
