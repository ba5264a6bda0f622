//! Elements of a binary tower field of a height fixed by the type.
use vstd::prelude::*;
use vstd::arithmetic::power2::{
    pow2, lemma_pow2_pos, lemma_pow2_unfold, lemma_pow2_strictly_increases, lemma2_to64,
};
use vstd::arithmetic::div_mod::lemma_div_denominator;
use crate::field::binary_field::BinaryField;
use crate::field::coefficients::{
    coefficient_bits, lemma_coefficient_bits_parts, zero_coefficients, all_zero, same_coefficients,
    copy_coefficients, add_coefficients, multiply, multiply_embedded,
};
use crate::field::tower_spec::{
    is_element, low, high, tower_zero, tower_one, tower_add, tower_neg, tower_sub, tower_mul,
    tower_pow, tower_inverse, tower_div, tower_rem, tower_mul_mixed, tower_embed, bits_value,
    bits_of,
};
use crate::field::tower_laws::{lemma_pow_add, lemma_halves, lemma_join};
use crate::field::codec_laws::{lemma_bits_value_bound, lemma_bits_value_of_bits};
use crate::field::field_laws::{lemma_inverse, lemma_div_mul, lemma_rem_zero};

verus! {

/// The greatest height for which an element can be built.
pub const MAX_HEIGHT: usize = 31;

/// An element of the binary tower field of height `K`: `2^K` coefficients
/// over the two-element field, lowest first.
#[derive(Debug, PartialEq, Eq)]
pub struct BinaryTowers<const K: usize> {
    coefficients: Vec<BinaryField>,
}

impl<const K: usize> View for BinaryTowers<K> {
    type V = Seq<bool>;

    /// The coefficient vector, lowest coefficient first.
    closed spec fn view(&self) -> Seq<bool> {
        coefficient_bits(self.coefficients@)
    }
}

impl<const K: usize> Clone for BinaryTowers<K> {
    fn clone(&self) -> (r: Self)
        ensures
            r@ == self@,
    {
        BinaryTowers { coefficients: copy_coefficients(self.coefficients.as_slice()) }
    }
}

/// `2^k` for a height within the limit.
fn coefficient_count(k: usize) -> (n: usize)
    requires
        k <= MAX_HEIGHT,
    ensures
        n == pow2(k as nat),
{
    let mut n: usize = 1;
    let mut i: usize = 0;
    proof {
        lemma2_to64();
    }
    while i < k
        invariant
            i <= k,
            k <= MAX_HEIGHT,
            n == pow2(i as nat),
        decreases k - i,
    {
        proof {
            lemma_pow2_unfold((i + 1) as nat);
            lemma2_to64();
            if i + 1 < 31 {
                lemma_pow2_strictly_increases((i + 1) as nat, 31);
            }
        }
        n = n * 2;
        i += 1;
    }
    n
}

/// The integer whose binary digits are the given coefficients, lowest first.
fn value_of_coefficients(a: &[BinaryField]) -> (r: u64)
    requires
        a.len() <= 64,
    ensures
        r == bits_value(coefficient_bits(a@)),
{
    let ghost bits = coefficient_bits(a@);
    let len = a.len();
    let mut acc: u64 = 0;
    let mut i: usize = len;
    proof {
        assert(bits.skip(len as int) =~= Seq::<bool>::empty());
    }
    while i > 0
        invariant
            i <= len,
            len == a.len(),
            len <= 64,
            bits == coefficient_bits(a@),
            acc == bits_value(bits.skip(i as int)),
        decreases i,
    {
        i -= 1;
        proof {
            let s = bits.skip(i as int);
            assert(s.skip(1) =~= bits.skip(i + 1));
            lemma_bits_value_bound(s);
            lemma_pow2_unfold(s.len());
            if s.len() < 64 {
                lemma_pow2_strictly_increases(s.len(), 64);
            }
            lemma2_to64();
            assert(s[0] == a@[i as int].bit());
        }
        acc = 2 * acc + a[i].to_integer();
    }
    proof {
        assert(bits.skip(0) =~= bits);
    }
    acc
}

/// The integer whose binary digits are the given coefficients, lowest first.
pub fn from_bool_vec(num: Vec<BinaryField>) -> (r: u64)
    requires
        num.len() <= 64,
    ensures
        r == bits_value(coefficient_bits(num@)),
{
    value_of_coefficients(num.as_slice())
}

/// The number of binary digits of `n`; 0 has one.
pub open spec fn binary_digits(n: nat) -> nat
    decreases n,
{
    if n < 2 {
        1
    } else {
        1 + binary_digits(n / 2)
    }
}

/// The number of digits that `n` has when written in binary.
pub fn num_digits(n: u64) -> (r: usize)
    ensures
        r == binary_digits(n as nat),
{
    let mut rest: u64 = n;
    let mut count: usize = 1;
    proof {
        lemma2_to64();
    }
    while rest >= 2
        invariant
            1 <= count <= 64,
            count + binary_digits(rest as nat) == 1 + binary_digits(n as nat),
            rest < pow2((65 - count) as nat),
        decreases rest,
    {
        proof {
            lemma_pow2_unfold((65 - count) as nat);
            lemma2_to64();
        }
        rest = rest / 2;
        count += 1;
    }
    count
}

impl<const K: usize> BinaryTowers<K> {
    /// Whether the element has the `2^K` coefficients of its height.
    pub open spec fn wf(&self) -> bool {
        is_element(self@, K as nat)
    }

    /// The additive identity.
    pub fn zero() -> (r: Self)
        requires
            K <= MAX_HEIGHT,
        ensures
            r.wf(),
            r@ == tower_zero(pow2(K as nat)),
    {
        let n = coefficient_count(K);
        BinaryTowers { coefficients: zero_coefficients(n) }
    }

    /// The multiplicative identity.
    pub fn one() -> (r: Self)
        requires
            K <= MAX_HEIGHT,
        ensures
            r.wf(),
            r@ == tower_one(pow2(K as nat)),
    {
        let n = coefficient_count(K);
        proof {
            lemma_pow2_pos(K as nat);
        }
        Self::identity(n)
    }

    /// The multiplicative identity with `n` coefficients.
    fn identity(n: usize) -> (r: Self)
        requires
            n > 0,
        ensures
            r@ == tower_one(n as nat),
    {
        let mut coefficients = zero_coefficients(n);
        let ghost zeros = coefficients@;
        coefficients.set(0, BinaryField::One);
        proof {
            assert forall|j: int| 0 <= j < n implies coefficient_bits(coefficients@)[j]
                == tower_one(n as nat)[j] by {
                assert(coefficient_bits(zeros)[j] == tower_zero(n as nat)[j]);
            }
            assert(coefficient_bits(coefficients@) =~= tower_one(n as nat));
        }
        BinaryTowers { coefficients }
    }

    /// The element whose coefficients are the lowest `2^K` binary digits of
    /// `n`, lowest first. Higher digits of `n` are dropped.
    pub fn from_integer(n: u64) -> (r: Self)
        requires
            K <= MAX_HEIGHT,
        ensures
            r.wf(),
            r@ == bits_of(n as nat, pow2(K as nat)),
            bits_value(r@) == n as nat % pow2(pow2(K as nat)),
    {
        let len = coefficient_count(K);
        let mut coefficients: Vec<BinaryField> = Vec::new();
        let mut v: u64 = n;
        let mut i: usize = 0;
        proof {
            lemma2_to64();
        }
        while i < len
            invariant
                i <= len,
                coefficients.len() == i,
                v == n as nat / pow2(i as nat),
                forall|j: int|
                    0 <= j < i ==> coefficients[j].bit() == ((n as nat / pow2(j as nat)) % 2 == 1),
            decreases len - i,
        {
            coefficients.push(BinaryField::from_bool(v % 2 == 1));
            proof {
                lemma_pow2_unfold((i + 1) as nat);
                lemma_pow2_pos(i as nat);
                lemma_div_denominator(n as int, pow2(i as nat) as int, 2);
            }
            v = v / 2;
            i += 1;
        }
        proof {
            assert(coefficient_bits(coefficients@) =~= bits_of(n as nat, pow2(K as nat)));
            lemma_bits_value_of_bits(n as nat, pow2(K as nat));
        }
        BinaryTowers { coefficients }
    }

    /// The integer whose binary digits are the coefficients, lowest first.
    pub fn to_integer(&self) -> (r: u64)
        requires
            self.wf(),
            K <= 6,
        ensures
            r == bits_value(self@),
    {
        proof {
            lemma2_to64();
            if K < 6 {
                lemma_pow2_strictly_increases(K as nat, 6);
            }
        }
        value_of_coefficients(self.coefficients.as_slice())
    }

    /// The coefficients, lowest first.
    pub fn coefficients(&self) -> (r: Vec<BinaryField>)
        ensures
            coefficient_bits(r@) == self@,
    {
        copy_coefficients(self.coefficients.as_slice())
    }

    /// The coefficients, highest first.
    pub fn to_bits(&self) -> (r: Vec<BinaryField>)
        ensures
            coefficient_bits(r@) == self@.reverse(),
    {
        let len = self.coefficients.len();
        let mut r: Vec<BinaryField> = Vec::new();
        let mut i: usize = len;
        while i > 0
            invariant
                i <= len,
                len == self.coefficients.len(),
                r.len() == len - i,
                forall|j: int| 0 <= j < r.len() ==> r[j] == self.coefficients[len - 1 - j],
            decreases i,
        {
            i -= 1;
            r.push(self.coefficients[i]);
        }
        proof {
            assert(coefficient_bits(r@) =~= self@.reverse());
        }
        r
    }

    /// The element with the given coefficients, highest first; nothing when
    /// their number is not `2^K`.
    pub fn from_bits(bits: &[BinaryField]) -> (r: Option<Self>)
        requires
            K <= MAX_HEIGHT,
        ensures
            r.is_some() == (bits@.len() == pow2(K as nat)),
            r matches Some(e) ==> e.wf() && e@ == coefficient_bits(bits@).reverse(),
    {
        let n = coefficient_count(K);
        if bits.len() != n {
            return None;
        }
        let mut coefficients: Vec<BinaryField> = Vec::new();
        let mut i: usize = n;
        while i > 0
            invariant
                i <= n,
                n == bits.len(),
                coefficients.len() == n - i,
                forall|j: int| 0 <= j < coefficients.len() ==> coefficients[j] == bits[n - 1 - j],
            decreases i,
        {
            i -= 1;
            coefficients.push(bits[i]);
        }
        proof {
            assert(coefficient_bits(coefficients@) =~= coefficient_bits(bits@).reverse());
        }
        Some(BinaryTowers { coefficients })
    }

    /// Whether this is the additive identity.
    pub fn is_zero(&self) -> (r: bool)
        ensures
            r == (self@ == tower_zero(self@.len())),
    {
        all_zero(self.coefficients.as_slice())
    }

    /// Whether the two elements are the same.
    pub fn equals(&self, other: &Self) -> (r: bool)
        ensures
            r == (self@ == other@),
    {
        same_coefficients(self.coefficients.as_slice(), other.coefficients.as_slice())
    }

    /// Sum.
    pub fn add(&self, rhs: &Self) -> (r: Self)
        requires
            self.wf(),
            rhs.wf(),
        ensures
            r.wf(),
            r@ == tower_add(self@, rhs@),
    {
        BinaryTowers {
            coefficients: add_coefficients(
                self.coefficients.as_slice(),
                rhs.coefficients.as_slice(),
            ),
        }
    }

    /// Difference, which in characteristic 2 is the sum.
    pub fn sub(&self, rhs: &Self) -> (r: Self)
        requires
            self.wf(),
            rhs.wf(),
        ensures
            r.wf(),
            r@ == tower_sub(self@, rhs@),
    {
        self.add(rhs)
    }

    /// Additive inverse, which in characteristic 2 is the element itself.
    pub fn neg(&self) -> (r: Self)
        requires
            self.wf(),
        ensures
            r.wf(),
            r@ == tower_neg(self@),
    {
        self.clone()
    }

    /// Product.
    pub fn mul(&self, rhs: &Self) -> (r: Self)
        requires
            self.wf(),
            rhs.wf(),
        ensures
            r.wf(),
            r@ == tower_mul(self@, rhs@),
    {
        BinaryTowers {
            coefficients: multiply(
                self.coefficients.as_slice(),
                rhs.coefficients.as_slice(),
                Ghost(K as nat),
            ),
        }
    }

    /// `self` raised to the power `n`, by squaring: the power for half the
    /// exponent is squared, and multiplied by `self` once more where the
    /// exponent is odd.
    pub fn pow(&self, n: u64) -> (r: Self)
        requires
            self.wf(),
        ensures
            r.wf(),
            r@ == tower_pow(self@, n as nat),
        decreases n,
    {
        proof {
            lemma_pow2_pos(K as nat);
        }
        if n == 0 {
            Self::identity(self.coefficients.len())
        } else {
            let half = self.pow(n / 2);
            let square = half.mul(&half);
            proof {
                lemma_pow_add(self@, (n / 2) as nat, (n / 2) as nat, K as nat);
            }
            if n % 2 == 0 {
                square
            } else {
                square.mul(self)
            }
        }
    }

    /// Multiplicative inverse: `self` raised to the order of the field less 2,
    /// whose product with `self` is one. Zero has none.
    pub fn inverse(&self) -> (r: Option<Self>)
        requires
            self.wf(),
        ensures
            r.is_none() == (self@ == tower_zero(self@.len())),
            r matches Some(e) ==> e.wf() && e@ == tower_inverse(self@) && tower_mul(self@, e@)
                == tower_one(self@.len()),
    {
        if self.is_zero() {
            return None;
        }
        let len = self.coefficients.len();
        proof {
            lemma_pow2_pos(K as nat);
            lemma2_to64();
        }
        let mut acc = Self::identity(len);
        let mut i: usize = 1;
        while i < len
            invariant
                1 <= i <= len,
                len == self@.len(),
                self.wf(),
                acc.wf(),
                acc@ == tower_pow(self@, (pow2(i as nat) - 2) as nat),
            decreases len - i,
        {
            let next = acc.mul(self);
            let square = next.mul(&next);
            proof {
                let e = (pow2(i as nat) - 2) as nat;
                lemma_pow2_unfold(i as nat);
                lemma_pow2_unfold((i + 1) as nat);
                lemma_pow2_pos((i - 1) as nat);
                assert(next@ == tower_pow(self@, e + 1));
                lemma_pow_add(self@, e + 1, e + 1, K as nat);
                assert((e + 1) + (e + 1) == pow2((i + 1) as nat) - 2);
            }
            acc = square;
            i += 1;
        }
        proof {
            lemma_inverse(self@, K as nat);
        }
        Some(acc)
    }

    /// Quotient: the product with the inverse of the divisor, which the
    /// divisor multiplies back to `self`. There is none when the divisor is
    /// zero.
    pub fn div(&self, rhs: &Self) -> (r: Option<Self>)
        requires
            self.wf(),
            rhs.wf(),
        ensures
            r.is_none() == (rhs@ == tower_zero(rhs@.len())),
            r matches Some(e) ==> e.wf() && e@ == tower_div(self@, rhs@) && tower_mul(e@, rhs@)
                == self@,
    {
        match rhs.inverse() {
            None => None,
            Some(inv) => {
                proof {
                    lemma_div_mul(self@, rhs@, K as nat);
                }
                Some(self.mul(&inv))
            },
        }
    }

    /// Remainder: what is left of `self` once the quotient times the divisor
    /// is taken away, which in a field is zero. There is none when the divisor
    /// is zero.
    pub fn rem(&self, rhs: &Self) -> (r: Option<Self>)
        requires
            self.wf(),
            rhs.wf(),
        ensures
            r.is_none() == (rhs@ == tower_zero(rhs@.len())),
            r matches Some(e) ==> e.wf() && e@ == tower_rem(self@, rhs@) && e@ == tower_zero(
                self@.len(),
            ),
    {
        match self.div(rhs) {
            None => None,
            Some(q) => {
                proof {
                    lemma_rem_zero(self@, rhs@, K as nat);
                }
                let p = q.mul(rhs);
                Some(self.sub(&p))
            },
        }
    }

    /// The lower and the upper half, each an element of the field one level
    /// below.
    pub fn split<const H: usize>(&self) -> (r: (BinaryTowers<H>, BinaryTowers<H>))
        requires
            self.wf(),
            K == H + 1,
        ensures
            r.0.wf(),
            r.1.wf(),
            r.0@ == low(self@),
            r.1@ == high(self@),
    {
        proof {
            lemma_halves(self@, K as nat);
            lemma_coefficient_bits_parts(self.coefficients@, self.coefficients@);
        }
        let half = self.coefficients.len() / 2;
        let (c0, c1) = self.coefficients.as_slice().split_at(half);
        (
            BinaryTowers { coefficients: copy_coefficients(c0) },
            BinaryTowers { coefficients: copy_coefficients(c1) },
        )
    }

    /// The element whose lower half is `lower` and whose upper half is
    /// `upper`, both of the field one level below.
    pub fn join<const H: usize>(lower: &BinaryTowers<H>, upper: &BinaryTowers<H>) -> (r: Self)
        requires
            lower.wf(),
            upper.wf(),
            K == H + 1,
        ensures
            r.wf(),
            r@ == lower@ + upper@,
    {
        let mut coefficients = copy_coefficients(lower.coefficients.as_slice());
        let mut rest = copy_coefficients(upper.coefficients.as_slice());
        proof {
            lemma_join(lower@, upper@, H as nat);
            lemma_coefficient_bits_parts(coefficients@, rest@);
        }
        coefficients.append(&mut rest);
        BinaryTowers { coefficients }
    }

    /// The product with an element of a field of another height, as an
    /// element of the field of `self`.
    ///
    /// An element of a smaller field is taken as the element of this field
    /// with the same coefficients. With an element of a larger field the
    /// product does not fit this field: `self` is returned.
    pub fn mul_tower<const K2: usize>(&self, rhs: &BinaryTowers<K2>) -> (r: Self)
        requires
            self.wf(),
            rhs.wf(),
        ensures
            r.wf(),
            r@ == tower_mul_mixed(self@, rhs@),
            K < K2 ==> r@ == self@,
            K2 <= K ==> r@ == tower_mul(self@, tower_embed(rhs@, self@.len())),
    {
        proof {
            if K < K2 {
                lemma_pow2_strictly_increases(K as nat, K2 as nat);
            }
            if K2 < K {
                lemma_pow2_strictly_increases(K2 as nat, K as nat);
            }
        }
        if K2 <= K {
            BinaryTowers {
                coefficients: multiply_embedded(
                    self.coefficients.as_slice(),
                    rhs.coefficients.as_slice(),
                    Ghost(K as nat),
                    Ghost(K2 as nat),
                ),
            }
        } else {
            self.clone()
        }
    }
}

} // verus!
