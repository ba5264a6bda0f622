//! What the curve arithmetic asks of the field of its coordinates.
use vstd::prelude::*;

verus! {

/// An element of a field in which curve points have their coordinates.
///
/// Every operation is total: the quotient by an element without an inverse
/// is defined, as the product with zero.
pub trait FieldElement: Sized + Copy {
    /// Whether the field's parameters are within what the arithmetic can
    /// work with.
    spec fn usable() -> bool;

    /// Whether the value is a proper element of its field.
    spec fn valid(self) -> bool;

    /// A field that has a proper element is usable.
    proof fn lemma_valid_usable(self)
        requires
            self.valid(),
        ensures
            Self::usable(),
    ;

    /// The element that the small integer `n` stands for.
    spec fn small_value(n: u8) -> Self;

    /// The sum of two elements.
    spec fn sum(self, rhs: Self) -> Self;

    /// The difference of two elements.
    spec fn difference(self, rhs: Self) -> Self;

    /// The additive inverse.
    spec fn negation(self) -> Self;

    /// The product of two elements.
    spec fn product(self, rhs: Self) -> Self;

    /// The quotient of two elements.
    spec fn quotient(self, rhs: Self) -> Self;

    /// The element that the small integer `n` stands for.
    fn small(n: u8) -> (r: Self)
        requires
            Self::usable(),
        ensures
            r.valid(),
            r == Self::small_value(n),
    ;

    /// The sum of two elements.
    fn add(self, rhs: Self) -> (r: Self)
        requires
            self.valid(),
            rhs.valid(),
        ensures
            r.valid(),
            r == self.sum(rhs),
    ;

    /// The difference of two elements.
    fn sub(self, rhs: Self) -> (r: Self)
        requires
            self.valid(),
            rhs.valid(),
        ensures
            r.valid(),
            r == self.difference(rhs),
    ;

    /// The additive inverse.
    fn neg(self) -> (r: Self)
        requires
            self.valid(),
        ensures
            r.valid(),
            r == self.negation(),
    ;

    /// The product of two elements.
    fn mul(self, rhs: Self) -> (r: Self)
        requires
            self.valid(),
            rhs.valid(),
        ensures
            r.valid(),
            r == self.product(rhs),
    ;

    /// The quotient of two elements.
    fn div(self, rhs: Self) -> (r: Self)
        requires
            self.valid(),
            rhs.valid(),
        ensures
            r.valid(),
            r == self.quotient(rhs),
    ;

    /// Whether the two elements are the same.
    fn same(self, rhs: Self) -> (r: bool)
        requires
            self.valid(),
            rhs.valid(),
        ensures
            r == (self == rhs),
    ;
}

} // verus!
