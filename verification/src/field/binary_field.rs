//! The field with two elements, the bottom of every binary tower.
use vstd::prelude::*;

verus! {

/// An element of the field with two elements.
#[derive(Clone, Copy, PartialEq, Eq, Debug, Hash, Structural)]
pub enum BinaryField {
    /// The additive identity.
    Zero,
    /// The multiplicative identity.
    One,
}

impl BinaryField {
    /// The additive identity.
    pub const ZERO: BinaryField = BinaryField::Zero;

    /// The multiplicative identity.
    pub const ONE: BinaryField = BinaryField::One;

    /// The coefficient that this element stands for: `true` for `One`.
    pub open spec fn bit(self) -> bool {
        self == BinaryField::One
    }

    /// The element whose coefficient is the lowest bit of `value`.
    pub fn new(value: u8) -> (r: BinaryField)
        ensures
            r.bit() == (value % 2 == 1),
    {
        if value % 2 == 1 {
            BinaryField::One
        } else {
            BinaryField::Zero
        }
    }

    /// The element whose coefficient is the lowest bit of `value`.
    pub fn from_integer(value: u64) -> (r: BinaryField)
        ensures
            r.bit() == (value % 2 == 1),
    {
        if value % 2 == 1 {
            BinaryField::One
        } else {
            BinaryField::Zero
        }
    }

    /// The element with the given coefficient.
    pub fn from_bool(b: bool) -> (r: BinaryField)
        ensures
            r.bit() == b,
    {
        if b {
            BinaryField::One
        } else {
            BinaryField::Zero
        }
    }

    /// 1 for `One`, 0 for `Zero`.
    pub fn to_integer(self) -> (r: u64)
        ensures
            r == (if self.bit() { 1u64 } else { 0u64 }),
    {
        match self {
            BinaryField::Zero => 0,
            BinaryField::One => 1,
        }
    }

    /// Whether this is the multiplicative identity.
    pub fn is_one(self) -> (r: bool)
        ensures
            r == self.bit(),
    {
        match self {
            BinaryField::Zero => false,
            BinaryField::One => true,
        }
    }

    /// Sum in the field: exclusive or of the coefficients.
    pub fn add(self, rhs: BinaryField) -> (r: BinaryField)
        ensures
            r.bit() == (self.bit() != rhs.bit()),
    {
        match (self, rhs) {
            (BinaryField::Zero, BinaryField::Zero) => BinaryField::Zero,
            (BinaryField::One, BinaryField::One) => BinaryField::Zero,
            _ => BinaryField::One,
        }
    }

    /// Difference in the field, which in characteristic 2 is the sum.
    pub fn sub(self, rhs: BinaryField) -> (r: BinaryField)
        ensures
            r.bit() == (self.bit() != rhs.bit()),
    {
        self.add(rhs)
    }

    /// Additive inverse, which in characteristic 2 is the element itself.
    pub fn neg(self) -> (r: BinaryField)
        ensures
            r == self,
    {
        self
    }

    /// Product in the field: conjunction of the coefficients.
    pub fn mul(self, rhs: BinaryField) -> (r: BinaryField)
        ensures
            r.bit() == (self.bit() && rhs.bit()),
    {
        match (self, rhs) {
            (BinaryField::One, BinaryField::One) => BinaryField::One,
            _ => BinaryField::Zero,
        }
    }

    /// Multiplicative inverse: `One` for `One`, nothing for `Zero`.
    pub fn inverse(self) -> (r: Option<BinaryField>)
        ensures
            self.bit() ==> r == Some(BinaryField::One),
            !self.bit() ==> r.is_none(),
    {
        match self {
            BinaryField::Zero => None,
            BinaryField::One => Some(BinaryField::One),
        }
    }

    /// Quotient in the field; there is none when the divisor is `Zero`.
    pub fn div(self, rhs: BinaryField) -> (r: Option<BinaryField>)
        ensures
            rhs.bit() ==> r == Some(self),
            !rhs.bit() ==> r.is_none(),
    {
        match rhs {
            BinaryField::Zero => None,
            BinaryField::One => Some(self),
        }
    }

    /// `self` raised to the power `n`: `One` when `n` is 0, else `self`.
    pub fn pow(self, n: u64) -> (r: BinaryField)
        ensures
            r.bit() == (n == 0 || self.bit()),
    {
        if n == 0 {
            BinaryField::One
        } else {
            self
        }
    }
}

} // verus!
