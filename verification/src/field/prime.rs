//! Prime fields of small order, and the two that the signature scheme uses.
use vstd::prelude::*;
use crate::field::element::FieldElement;

verus! {

/// The greatest modulus for which products of two residues fit a machine
/// word of any width.
pub const MAX_MODULUS: usize = 0xffff;

/// The sum of two residues modulo `p`.
pub open spec fn residue_add(a: int, b: int, p: int) -> int {
    (a + b) % p
}

/// The additive inverse of a residue modulo `p`.
pub open spec fn residue_neg(a: int, p: int) -> int {
    (p - a) % p
}

/// The difference of two residues modulo `p`.
pub open spec fn residue_sub(a: int, b: int, p: int) -> int {
    (a + (p - b)) % p
}

/// The product of two residues modulo `p`.
pub open spec fn residue_mul(a: int, b: int, p: int) -> int {
    (a * b) % p
}

/// Whether `b` is a residue whose product with `a` is 1 modulo `p`.
pub open spec fn is_residue_inverse(a: int, b: int, p: int) -> bool {
    0 <= b < p && (a * b) % p == 1
}

/// The least inverse of `a` among the residues from `from` on; `p` where
/// there is none.
pub open spec fn least_inverse_from(a: int, from: int, p: int) -> int
    decreases p - from,
{
    if from >= p {
        p
    } else if is_residue_inverse(a, from, p) {
        from
    } else {
        least_inverse_from(a, from + 1, p)
    }
}

/// The multiplicative inverse of `a` modulo `p`: the least residue whose
/// product with `a` is 1. Where `a` has no inverse, it is 0.
pub open spec fn residue_inverse(a: int, p: int) -> int {
    let b = least_inverse_from(a, 0, p);
    if b < p {
        b
    } else {
        0
    }
}

/// The quotient of two residues modulo `p`; 0 where the divisor has no
/// inverse.
pub open spec fn residue_div(a: int, b: int, p: int) -> int {
    residue_mul(a, residue_inverse(b, p), p)
}

/// The least inverse from `from` on is an inverse, and no residue between
/// `from` and it is one.
pub proof fn lemma_least_inverse(a: int, from: int, p: int)
    requires
        0 <= from,
    ensures
        from <= least_inverse_from(a, from, p) || least_inverse_from(a, from, p) == p,
        least_inverse_from(a, from, p) < p ==> is_residue_inverse(
            a,
            least_inverse_from(a, from, p),
            p,
        ),
        forall|b: int|
            from <= b < least_inverse_from(a, from, p) && b < p ==> !#[trigger] is_residue_inverse(
                a,
                b,
                p,
            ),
    decreases p - from,
{
    if from < p && !is_residue_inverse(a, from, p) {
        lemma_least_inverse(a, from + 1, p);
    }
}

/// A residue modulo `P`.
#[derive(Clone, Copy, Debug, PartialEq, Eq)]
pub struct PrimeField<const P: usize> {
    /// The residue, below `P`.
    pub value: usize,
}

/// The field that the coordinates of the curve's points lie in.
pub type PlutoBaseField = PrimeField<101>;

/// The field of the scalars by which the curve's points are multiplied.
pub type PlutoScalarField = PrimeField<17>;

impl<const P: usize> PrimeField<P> {
    /// Whether the modulus is in range and the residue below it.
    pub open spec fn wf(self) -> bool {
        0 < P <= MAX_MODULUS && self.value < P
    }

    /// The number of elements of the field.
    pub fn order() -> (r: usize)
        ensures
            r == P,
    {
        P
    }

    /// The residue of `value`.
    pub fn new(value: usize) -> (r: Self)
        requires
            0 < P <= MAX_MODULUS,
        ensures
            r.wf(),
            r.value == value % P,
    {
        PrimeField { value: value % P }
    }

    /// The multiplicative inverse; there is none where no residue has the
    /// product 1 with this one.
    pub fn inverse(self) -> (r: Option<Self>)
        requires
            self.wf(),
        ensures
            r.is_some() == exists|b: int| #[trigger] is_residue_inverse(self.value as int, b, P as int),
            r matches Some(e) ==> e.wf() && e.value == residue_inverse(
                self.value as int,
                P as int,
            ),
    {
        let mut b: usize = 0;
        proof {
            lemma_least_inverse(self.value as int, 0, P as int);
        }
        while b < P
            invariant
                b <= P,
                self.wf(),
                forall|c: int|
                    0 <= c < b ==> !#[trigger] is_residue_inverse(self.value as int, c, P as int),
                least_inverse_from(self.value as int, 0, P as int) == least_inverse_from(
                    self.value as int,
                    b as int,
                    P as int,
                ),
            decreases P - b,
        {
            assert(self.value * b <= 0xffff * 0xffff) by (nonlinear_arith)
                requires
                    self.value < 0xffff,
                    b < 0xffff,
            ;
            if (self.value * b) % P == 1 {
                return Some(PrimeField { value: b });
            }
            b += 1;
        }
        None
    }
}

impl<const P: usize> FieldElement for PrimeField<P> {
    open spec fn usable() -> bool {
        0 < P <= MAX_MODULUS
    }

    open spec fn valid(self) -> bool {
        self.wf()
    }

    proof fn lemma_valid_usable(self) {
    }

    open spec fn small_value(n: u8) -> Self {
        PrimeField { value: (n as int % P as int) as usize }
    }

    open spec fn sum(self, rhs: Self) -> Self {
        PrimeField { value: residue_add(self.value as int, rhs.value as int, P as int) as usize }
    }

    open spec fn difference(self, rhs: Self) -> Self {
        PrimeField { value: residue_sub(self.value as int, rhs.value as int, P as int) as usize }
    }

    open spec fn negation(self) -> Self {
        PrimeField { value: residue_neg(self.value as int, P as int) as usize }
    }

    open spec fn product(self, rhs: Self) -> Self {
        PrimeField { value: residue_mul(self.value as int, rhs.value as int, P as int) as usize }
    }

    open spec fn quotient(self, rhs: Self) -> Self {
        PrimeField { value: residue_div(self.value as int, rhs.value as int, P as int) as usize }
    }

    fn small(n: u8) -> (r: Self) {
        PrimeField { value: n as usize % P }
    }

    fn add(self, rhs: Self) -> (r: Self) {
        PrimeField { value: (self.value + rhs.value) % P }
    }

    fn sub(self, rhs: Self) -> (r: Self) {
        PrimeField { value: (self.value + (P - rhs.value)) % P }
    }

    fn neg(self) -> (r: Self) {
        PrimeField { value: (P - self.value) % P }
    }

    fn mul(self, rhs: Self) -> (r: Self) {
        assert(self.value * rhs.value <= 0xffff * 0xffff) by (nonlinear_arith)
            requires
                self.value < 0xffff,
                rhs.value < 0xffff,
        ;
        PrimeField { value: (self.value * rhs.value) % P }
    }

    fn div(self, rhs: Self) -> (r: Self) {
        match rhs.inverse() {
            Some(inv) => self.mul(inv),
            None => {
                proof {
                    lemma_least_inverse(rhs.value as int, 0, P as int);
                }
                self.mul(PrimeField { value: 0 })
            },
        }
    }

    fn same(self, rhs: Self) -> (r: bool) {
        self.value == rhs.value
    }
}

} // verus!
