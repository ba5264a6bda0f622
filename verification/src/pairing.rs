//! The pairing on the points of order 17 of the extended curve: the function
//! of Miller's algorithm, raised to the power that takes it into the 17th
//! roots of unity.
use vstd::prelude::*;
use crate::field::element::FieldElement;
use crate::field::extension::PlutoBaseFieldExtension;
use crate::curve::{AffinePoint, point_valid, point_sum, slope};

verus! {

/// The order of the group that the pairing is defined on.
pub const GROUP_ORDER: usize = 17;

/// The power to which the function of Miller's algorithm is raised: the
/// order of the multiplicative group of the field over the group's order.
pub const FINAL_EXPONENT: usize = 600;

/// The line through `a` and `b`, the tangent where they are the same point,
/// evaluated at `q`.
///
/// Where `a` and `b` lie above each other the line is vertical, and so it is
/// where one of them is the point at infinity. Where both are, or `q` is, the
/// value is one.
pub open spec fn line_value<F: FieldElement>(
    a: AffinePoint<F>,
    b: AffinePoint<F>,
    q: AffinePoint<F>,
) -> F {
    match q {
        AffinePoint::Infinity => F::small_value(1),
        AffinePoint::Point(qx, qy) => match (a, b) {
            (AffinePoint::Infinity, AffinePoint::Infinity) => F::small_value(1),
            (AffinePoint::Infinity, AffinePoint::Point(x, _)) => qx.difference(x),
            (AffinePoint::Point(x, _), AffinePoint::Infinity) => qx.difference(x),
            (AffinePoint::Point(x1, y1), AffinePoint::Point(x2, y2)) => {
                if x1 == x2 && y1 == y2.negation() {
                    qx.difference(x1)
                } else {
                    qy.difference(y1).difference(
                        slope(x1, y1, x2, y2).product(qx.difference(x1)),
                    )
                }
            },
        },
    }
}

/// The vertical line through `a`, evaluated at `q`; one where either is the
/// point at infinity.
pub open spec fn vertical_value<F: FieldElement>(a: AffinePoint<F>, q: AffinePoint<F>) -> F {
    match (a, q) {
        (AffinePoint::Point(x, _), AffinePoint::Point(qx, _)) => qx.difference(x),
        _ => F::small_value(1),
    }
}

/// Miller's algorithm for the multiplier `r`, read from its highest binary
/// digit down: the value at `q` of the function built so far, and the
/// multiple of `p` reached.
///
/// Each digit squares the function and doubles the point, multiplying by the
/// tangent at the point over the vertical through its double. A digit 1 then
/// adds `p`, multiplying by the line through the point and `p` over the
/// vertical through their sum.
pub open spec fn miller_value<F: FieldElement>(p: AffinePoint<F>, q: AffinePoint<F>, r: nat) -> (
    F,
    AffinePoint<F>,
)
    decreases r,
{
    if r <= 1 {
        (F::small_value(1), p)
    } else {
        let (f, z) = miller_value(p, q, r / 2);
        let doubled = point_sum(z, z);
        let f2 = f.product(f).product(line_value(z, z, q)).quotient(vertical_value(doubled, q));
        if r % 2 == 1 {
            let sum = point_sum(doubled, p);
            (f2.product(line_value(doubled, p, q)).quotient(vertical_value(sum, q)), sum)
        } else {
            (f2, doubled)
        }
    }
}

/// The pairing of two points: one where either is the point at infinity.
#[verifier::opaque]
pub open spec fn pairing_value(
    p: AffinePoint<PlutoBaseFieldExtension>,
    q: AffinePoint<PlutoBaseFieldExtension>,
) -> PlutoBaseFieldExtension {
    if p == AffinePoint::<PlutoBaseFieldExtension>::Infinity || q == AffinePoint::<
        PlutoBaseFieldExtension,
    >::Infinity {
        PlutoBaseFieldExtension::small_value(1)
    } else {
        miller_value(p, q, GROUP_ORDER as nat).0.power_value(FINAL_EXPONENT as nat)
    }
}

/// The line through `a` and `b` evaluated at `q`.
pub fn line_function<F: FieldElement>(a: AffinePoint<F>, b: AffinePoint<F>, q: AffinePoint<F>) -> (r:
    F)
    requires
        F::usable(),
        point_valid(a),
        point_valid(b),
        point_valid(q),
    ensures
        r.valid(),
        r == line_value(a, b, q),
{
    match q {
        AffinePoint::Infinity => F::small(1),
        AffinePoint::Point(qx, qy) => match (a, b) {
            (AffinePoint::Infinity, AffinePoint::Infinity) => F::small(1),
            (AffinePoint::Infinity, AffinePoint::Point(x, _)) => qx.sub(x),
            (AffinePoint::Point(x, _), AffinePoint::Infinity) => qx.sub(x),
            (AffinePoint::Point(x1, y1), AffinePoint::Point(x2, y2)) => {
                if x1.same(x2) && y1.same(y2.neg()) {
                    qx.sub(x1)
                } else {
                    let lambda = if x1.same(x2) && y1.same(y2) {
                        F::small(3).mul(x1).mul(x1).div(F::small(2).mul(y1))
                    } else {
                        y2.sub(y1).div(x2.sub(x1))
                    };
                    qy.sub(y1).sub(lambda.mul(qx.sub(x1)))
                }
            },
        },
    }
}

/// The vertical line through `a` evaluated at `q`.
pub fn vertical_line<F: FieldElement>(a: AffinePoint<F>, q: AffinePoint<F>) -> (r: F)
    requires
        F::usable(),
        point_valid(a),
        point_valid(q),
    ensures
        r.valid(),
        r == vertical_value(a, q),
{
    match (a, q) {
        (AffinePoint::Point(x, _), AffinePoint::Point(qx, _)) => qx.sub(x),
        _ => F::small(1),
    }
}

/// Miller's algorithm for the multiplier `r`: the value at `q` of the
/// function of `p`, and the multiple of `p` that the algorithm ends on.
pub fn miller_loop<F: FieldElement>(p: AffinePoint<F>, q: AffinePoint<F>, r: usize) -> (out: (
    F,
    AffinePoint<F>,
))
    requires
        F::usable(),
        point_valid(p),
        point_valid(q),
    ensures
        out.0.valid(),
        point_valid(out.1),
        out == miller_value(p, q, r as nat),
    decreases r,
{
    if r <= 1 {
        (F::small(1), p)
    } else {
        let (f, z) = miller_loop(p, q, r / 2);
        let doubled = z.add(z);
        let f2 = f.mul(f).mul(line_function(z, z, q)).div(vertical_line(doubled, q));
        if r % 2 == 1 {
            let sum = doubled.add(p);
            (f2.mul(line_function(doubled, p, q)).div(vertical_line(sum, q)), sum)
        } else {
            (f2, doubled)
        }
    }
}

/// The pairing of two points of the extended curve.
pub fn pairing(
    p: AffinePoint<PlutoBaseFieldExtension>,
    q: AffinePoint<PlutoBaseFieldExtension>,
) -> (r: PlutoBaseFieldExtension)
    requires
        point_valid(p),
        point_valid(q),
    ensures
        r.valid(),
        r == pairing_value(p, q),
{
    reveal(pairing_value);
    if p.is_infinity() || q.is_infinity() {
        PlutoBaseFieldExtension::small(1)
    } else {
        let (f, _) = miller_loop(p, q, GROUP_ORDER);
        f.pow(FINAL_EXPONENT)
    }
}

} // verus!
