//! The quadratic extension of the base field in which the coordinates of the
//! extended curve lie: elements `c0 + c1 * u` with `u * u = -2`.
use vstd::prelude::*;
use crate::field::element::FieldElement;
use crate::field::prime::PlutoBaseField;

verus! {

/// An element `c0 + c1 * u` of the quadratic extension, where `u * u = -2`.
#[derive(Clone, Copy, Debug, PartialEq, Eq)]
pub struct PlutoBaseFieldExtension {
    /// The coefficient of 1.
    pub c0: PlutoBaseField,
    /// The coefficient of `u`.
    pub c1: PlutoBaseField,
}

impl PlutoBaseFieldExtension {
    /// The norm of the element down to the base field: `c0^2 + 2 * c1^2`, its
    /// product with its conjugate `c0 - c1 * u`.
    pub open spec fn norm_value(self) -> PlutoBaseField {
        self.c0.product(self.c0).sum(
            PlutoBaseField::small_value(2).product(self.c1.product(self.c1)),
        )
    }

    /// The multiplicative inverse: the conjugate over the norm. Where the
    /// norm has no inverse, it is zero.
    pub open spec fn inverse_value(self) -> Self {
        let scale = PlutoBaseField::small_value(1).quotient(self.norm_value());
        PlutoBaseFieldExtension {
            c0: self.c0.product(scale),
            c1: self.c1.negation().product(scale),
        }
    }

    /// The element with the given coefficients.
    pub fn new(c0: PlutoBaseField, c1: PlutoBaseField) -> (r: Self)
        requires
            c0.wf(),
            c1.wf(),
        ensures
            r.valid(),
            r == (PlutoBaseFieldExtension { c0, c1 }),
    {
        PlutoBaseFieldExtension { c0, c1 }
    }

    /// The element of the base field, as an element of the extension.
    pub fn from_base(c0: PlutoBaseField) -> (r: Self)
        requires
            c0.wf(),
        ensures
            r.valid(),
            r == (PlutoBaseFieldExtension { c0, c1: PlutoBaseField::small_value(0) }),
    {
        PlutoBaseFieldExtension { c0, c1: PlutoBaseField::small(0) }
    }

    /// The multiplicative identity.
    pub fn one() -> (r: Self)
        ensures
            r.valid(),
            r == Self::small_value(1),
    {
        Self::small(1)
    }

    /// The multiplicative inverse.
    pub fn inverse(self) -> (r: Self)
        requires
            self.valid(),
        ensures
            r.valid(),
            r == self.inverse_value(),
    {
        let norm = self.c0.mul(self.c0).add(PlutoBaseField::small(2).mul(self.c1.mul(self.c1)));
        let scale = PlutoBaseField::small(1).div(norm);
        PlutoBaseFieldExtension { c0: self.c0.mul(scale), c1: self.c1.neg().mul(scale) }
    }

    /// `self` multiplied by itself `n` times, starting from one.
    pub open spec fn power_value(self, n: nat) -> Self
        decreases n,
    {
        if n == 0 {
            Self::small_value(1)
        } else {
            self.power_value((n - 1) as nat).product(self)
        }
    }

    /// `self` raised to the power `n`.
    pub fn pow(self, n: usize) -> (r: Self)
        requires
            self.valid(),
        ensures
            r.valid(),
            r == self.power_value(n as nat),
    {
        let mut acc = Self::small(1);
        let mut i: usize = 0;
        while i < n
            invariant
                i <= n,
                self.valid(),
                acc.valid(),
                acc == self.power_value(i as nat),
            decreases n - i,
        {
            acc = acc.mul(self);
            i += 1;
        }
        acc
    }

    /// A primitive cube root of unity: `50 + 35 * u`.
    pub fn cube_root_of_unity() -> (r: Self)
        ensures
            r.valid(),
            r == Self::cube_root_of_unity_value(),
            r.product(r).product(r) == Self::small_value(1),
            r != Self::small_value(1),
    {
        proof {
            lemma_cube_root_of_unity();
        }
        PlutoBaseFieldExtension {
            c0: PlutoBaseField { value: 50 },
            c1: PlutoBaseField { value: 35 },
        }
    }

    /// A primitive cube root of unity: `50 + 35 * u`.
    pub open spec fn cube_root_of_unity_value() -> Self {
        PlutoBaseFieldExtension {
            c0: PlutoBaseField { value: 50 },
            c1: PlutoBaseField { value: 35 },
        }
    }
}

/// The cube of the chosen root of unity is 1, and the root is not 1.
pub proof fn lemma_cube_root_of_unity()
    ensures
        ({
            let w = PlutoBaseFieldExtension::cube_root_of_unity_value();
            w.product(w).product(w) == PlutoBaseFieldExtension::small_value(1)
        }),
        PlutoBaseFieldExtension::cube_root_of_unity_value()
            != PlutoBaseFieldExtension::small_value(1),
{
    let w = PlutoBaseFieldExtension::cube_root_of_unity_value();
    let two = PlutoBaseField::small_value(2);
    assert(two.value == 2);
    assert(w.c0.product(w.c0).value == 76);
    assert(w.c1.product(w.c1).value == 13);
    assert(two.product(w.c1.product(w.c1)).value == 26);
    assert(w.c0.product(w.c1).value == 33);
    let s = w.product(w);
    assert(s.c0.value == 50);
    assert(s.c1.value == 66);
    assert(s.c0.product(w.c0).value == 76);
    assert(s.c1.product(w.c1).value == 88);
    assert(two.product(s.c1.product(w.c1)).value == 75);
    assert(s.c0.product(w.c1).value == 33);
    assert(s.c1.product(w.c0).value == 68);
    let c = s.product(w);
    assert(c.c0.value == 1);
    assert(c.c1.value == 0);
    assert(PlutoBaseField::small_value(1).value == 1);
    assert(PlutoBaseField::small_value(0).value == 0);
}

impl FieldElement for PlutoBaseFieldExtension {
    open spec fn usable() -> bool {
        true
    }

    open spec fn valid(self) -> bool {
        self.c0.wf() && self.c1.wf()
    }

    proof fn lemma_valid_usable(self) {
    }

    open spec fn small_value(n: u8) -> Self {
        PlutoBaseFieldExtension {
            c0: PlutoBaseField::small_value(n),
            c1: PlutoBaseField::small_value(0),
        }
    }

    open spec fn sum(self, rhs: Self) -> Self {
        PlutoBaseFieldExtension { c0: self.c0.sum(rhs.c0), c1: self.c1.sum(rhs.c1) }
    }

    open spec fn difference(self, rhs: Self) -> Self {
        PlutoBaseFieldExtension {
            c0: self.c0.difference(rhs.c0),
            c1: self.c1.difference(rhs.c1),
        }
    }

    open spec fn negation(self) -> Self {
        PlutoBaseFieldExtension { c0: self.c0.negation(), c1: self.c1.negation() }
    }

    open spec fn product(self, rhs: Self) -> Self {
        PlutoBaseFieldExtension {
            c0: self.c0.product(rhs.c0).difference(
                PlutoBaseField::small_value(2).product(self.c1.product(rhs.c1)),
            ),
            c1: self.c0.product(rhs.c1).sum(self.c1.product(rhs.c0)),
        }
    }

    open spec fn quotient(self, rhs: Self) -> Self {
        self.product(rhs.inverse_value())
    }

    fn small(n: u8) -> (r: Self) {
        PlutoBaseFieldExtension { c0: PlutoBaseField::small(n), c1: PlutoBaseField::small(0) }
    }

    fn add(self, rhs: Self) -> (r: Self) {
        PlutoBaseFieldExtension { c0: self.c0.add(rhs.c0), c1: self.c1.add(rhs.c1) }
    }

    fn sub(self, rhs: Self) -> (r: Self) {
        PlutoBaseFieldExtension { c0: self.c0.sub(rhs.c0), c1: self.c1.sub(rhs.c1) }
    }

    fn neg(self) -> (r: Self) {
        PlutoBaseFieldExtension { c0: self.c0.neg(), c1: self.c1.neg() }
    }

    fn mul(self, rhs: Self) -> (r: Self) {
        let two = PlutoBaseField::small(2);
        PlutoBaseFieldExtension {
            c0: self.c0.mul(rhs.c0).sub(two.mul(self.c1.mul(rhs.c1))),
            c1: self.c0.mul(rhs.c1).add(self.c1.mul(rhs.c0)),
        }
    }

    fn div(self, rhs: Self) -> (r: Self) {
        self.mul(rhs.inverse())
    }

    fn same(self, rhs: Self) -> (r: bool) {
        self.c0.value == rhs.c0.value && self.c1.value == rhs.c1.value
    }
}

} // verus!
