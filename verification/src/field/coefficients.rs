//! Arithmetic on coefficient slices: the recursive routines that the element
//! type is built on.
use vstd::prelude::*;
use crate::field::binary_field::BinaryField;
use crate::field::tower_spec::{
    is_element, low, high, tower_zero, tower_add, times_generator, tower_mul, tower_embed,
};
use crate::field::tower_laws::{
    lemma_halves, lemma_height_zero, lemma_mul_len, lemma_karatsuba, lemma_mul_embedded,
};

verus! {

/// The coefficients that a sequence of base-field elements stands for.
pub open spec fn coefficient_bits(s: Seq<BinaryField>) -> Seq<bool> {
    Seq::new(s.len(), |i: int| s[i].bit())
}

/// Taking part of a sequence and reading its coefficients commute, and so do
/// joining two sequences and reading their coefficients.
pub proof fn lemma_coefficient_bits_parts(s: Seq<BinaryField>, t: Seq<BinaryField>)
    ensures
        low(coefficient_bits(s)) == coefficient_bits(s.subrange(0, s.len() as int / 2)),
        high(coefficient_bits(s)) == coefficient_bits(s.subrange(s.len() as int / 2, s.len() as int)),
        coefficient_bits(s + t) == coefficient_bits(s) + coefficient_bits(t),
{
    assert(low(coefficient_bits(s)) =~= coefficient_bits(s.subrange(0, s.len() as int / 2)));
    assert(high(coefficient_bits(s)) =~= coefficient_bits(
        s.subrange(s.len() as int / 2, s.len() as int),
    ));
    assert(coefficient_bits(s + t) =~= coefficient_bits(s) + coefficient_bits(t));
}

/// A vector of `n` zeros.
pub fn zero_coefficients(n: usize) -> (r: Vec<BinaryField>)
    ensures
        coefficient_bits(r@) == tower_zero(n as nat),
        r.len() == n,
{
    let mut r: Vec<BinaryField> = Vec::new();
    let mut i: usize = 0;
    while i < n
        invariant
            i <= n,
            r.len() == i,
            forall|j: int| 0 <= j < i ==> !r[j].bit(),
        decreases n - i,
    {
        r.push(BinaryField::Zero);
        i += 1;
    }
    proof {
        assert(coefficient_bits(r@) =~= tower_zero(n as nat));
    }
    r
}

/// Whether every coefficient is zero.
pub fn all_zero(a: &[BinaryField]) -> (r: bool)
    ensures
        r == (coefficient_bits(a@) == tower_zero(a@.len())),
{
    let mut i: usize = 0;
    while i < a.len()
        invariant
            i <= a.len(),
            forall|j: int| 0 <= j < i ==> !a[j].bit(),
        decreases a.len() - i,
    {
        if a[i].is_one() {
            proof {
                assert(coefficient_bits(a@)[i as int]);
                assert(!tower_zero(a@.len())[i as int]);
            }
            return false;
        }
        i += 1;
    }
    proof {
        assert(coefficient_bits(a@) =~= tower_zero(a@.len()));
    }
    true
}

/// Whether two slices hold the same coefficients.
pub fn same_coefficients(a: &[BinaryField], b: &[BinaryField]) -> (r: bool)
    ensures
        r == (coefficient_bits(a@) == coefficient_bits(b@)),
{
    if a.len() != b.len() {
        proof {
            assert(coefficient_bits(a@).len() != coefficient_bits(b@).len());
        }
        return false;
    }
    let mut i: usize = 0;
    while i < a.len()
        invariant
            i <= a.len(),
            a.len() == b.len(),
            forall|j: int| 0 <= j < i ==> a[j].bit() == b[j].bit(),
        decreases a.len() - i,
    {
        if a[i].is_one() != b[i].is_one() {
            proof {
                assert(coefficient_bits(a@)[i as int] != coefficient_bits(b@)[i as int]);
            }
            return false;
        }
        i += 1;
    }
    proof {
        assert(coefficient_bits(a@) =~= coefficient_bits(b@));
    }
    true
}

/// A copy of the slice.
pub fn copy_coefficients(a: &[BinaryField]) -> (r: Vec<BinaryField>)
    ensures
        r@ == a@,
{
    let mut r: Vec<BinaryField> = Vec::new();
    let mut i: usize = 0;
    while i < a.len()
        invariant
            i <= a.len(),
            r.len() == i,
            forall|j: int| 0 <= j < i ==> r[j] == a[j],
        decreases a.len() - i,
    {
        r.push(a[i]);
        i += 1;
    }
    proof {
        assert(r@ =~= a@);
    }
    r
}

/// The sum of two elements: exclusive or, coefficient by coefficient.
pub fn add_coefficients(a: &[BinaryField], b: &[BinaryField]) -> (r: Vec<BinaryField>)
    requires
        a.len() == b.len(),
    ensures
        coefficient_bits(r@) == tower_add(coefficient_bits(a@), coefficient_bits(b@)),
        r.len() == a.len(),
{
    let mut r: Vec<BinaryField> = Vec::new();
    let mut i: usize = 0;
    while i < a.len()
        invariant
            i <= a.len(),
            a.len() == b.len(),
            r.len() == i,
            forall|j: int| 0 <= j < i ==> r[j].bit() == (a[j].bit() != b[j].bit()),
        decreases a.len() - i,
    {
        r.push(a[i].add(b[i]));
        i += 1;
    }
    proof {
        assert(coefficient_bits(r@) =~= tower_add(coefficient_bits(a@), coefficient_bits(b@)));
    }
    r
}

/// The product of an element with the generator of its level.
pub fn times_generator_coefficients(c: &[BinaryField], Ghost(h): Ghost<nat>) -> (r: Vec<
    BinaryField,
>)
    requires
        is_element(coefficient_bits(c@), h),
    ensures
        coefficient_bits(r@) == times_generator(coefficient_bits(c@)),
        r.len() == c.len(),
    decreases h,
{
    if c.len() == 1 {
        copy_coefficients(c)
    } else {
        proof {
            if h == 0 {
                lemma_height_zero(coefficient_bits(c@));
            }
            lemma_halves(coefficient_bits(c@), h);
            lemma_coefficient_bits_parts(c@, c@);
        }
        let half = c.len() / 2;
        let (c0, c1) = c.split_at(half);
        let g1 = times_generator_coefficients(c1, Ghost((h - 1) as nat));
        let mut upper = add_coefficients(c0, g1.as_slice());
        let mut r = copy_coefficients(c1);
        proof {
            lemma_coefficient_bits_parts(r@, upper@);
        }
        r.append(&mut upper);
        r
    }
}

/// The product of two elements of one height.
///
/// The three products of halves that the result needs are `a0 * b0`,
/// `a1 * b1` and `(a0 + a1) * (b0 + b1)`: the mixed terms are what is left of
/// the third once the other two are taken away.
pub fn multiply(a: &[BinaryField], b: &[BinaryField], Ghost(h): Ghost<nat>) -> (r: Vec<
    BinaryField,
>)
    requires
        is_element(coefficient_bits(a@), h),
        is_element(coefficient_bits(b@), h),
    ensures
        coefficient_bits(r@) == tower_mul(coefficient_bits(a@), coefficient_bits(b@)),
        r.len() == a.len(),
    decreases h,
{
    if a.len() == 1 {
        let mut r: Vec<BinaryField> = Vec::new();
        r.push(a[0].mul(b[0]));
        proof {
            assert(coefficient_bits(r@) =~= tower_mul(coefficient_bits(a@), coefficient_bits(b@)));
        }
        r
    } else {
        let ghost m = (h - 1) as nat;
        let ghost (sa, sb) = (coefficient_bits(a@), coefficient_bits(b@));
        proof {
            if h == 0 {
                lemma_height_zero(sa);
            }
            lemma_halves(sa, h);
            lemma_halves(sb, h);
            lemma_coefficient_bits_parts(a@, a@);
            lemma_coefficient_bits_parts(b@, b@);
        }
        let half = a.len() / 2;
        let (a0, a1) = a.split_at(half);
        let (b0, b1) = b.split_at(half);
        let ll = multiply(a0, b0, Ghost(m));
        let hh = multiply(a1, b1, Ghost(m));
        let a_sum = add_coefficients(a0, a1);
        let b_sum = add_coefficients(b0, b1);
        let cross = multiply(a_sum.as_slice(), b_sum.as_slice(), Ghost(m));
        proof {
            lemma_mul_len(low(sa), low(sb), m);
            lemma_mul_len(high(sa), high(sb), m);
        }
        let hh_gen = times_generator_coefficients(hh.as_slice(), Ghost(m));
        let mut lower = add_coefficients(ll.as_slice(), hh.as_slice());
        let t1 = add_coefficients(cross.as_slice(), ll.as_slice());
        let t2 = add_coefficients(t1.as_slice(), hh.as_slice());
        let mut upper = add_coefficients(t2.as_slice(), hh_gen.as_slice());
        proof {
            lemma_karatsuba(low(sa), high(sa), low(sb), high(sb), m);
            lemma_coefficient_bits_parts(lower@, upper@);
        }
        lower.append(&mut upper);
        lower
    }
}

/// The product of an element with one of a field no larger than its own,
/// taken as an element of the larger field.
///
/// The smaller field lies in the lower coefficients of the larger one, so at
/// every level above the smaller operand's the upper half of that operand is
/// zero, and only the two products with its lower half are left.
pub fn multiply_embedded(
    a: &[BinaryField],
    b: &[BinaryField],
    Ghost(h): Ghost<nat>,
    Ghost(k): Ghost<nat>,
) -> (r: Vec<BinaryField>)
    requires
        is_element(coefficient_bits(a@), h),
        is_element(coefficient_bits(b@), k),
        k <= h,
    ensures
        coefficient_bits(r@) == tower_mul(
            coefficient_bits(a@),
            tower_embed(coefficient_bits(b@), a@.len()),
        ),
        r.len() == a.len(),
    decreases h,
{
    proof {
        lemma_mul_embedded(coefficient_bits(a@), coefficient_bits(b@), h, k);
        if h > k {
            lemma_halves(coefficient_bits(a@), h);
            lemma_coefficient_bits_parts(a@, a@);
            vstd::arithmetic::power2::lemma_pow2_strictly_increases(k, h);
        }
    }
    if a.len() == b.len() {
        multiply(a, b, Ghost(h))
    } else {
        let half = a.len() / 2;
        let (a0, a1) = a.split_at(half);
        let mut lower = multiply_embedded(a0, b, Ghost((h - 1) as nat), Ghost(k));
        let mut upper = multiply_embedded(a1, b, Ghost((h - 1) as nat), Ghost(k));
        proof {
            lemma_coefficient_bits_parts(lower@, upper@);
        }
        lower.append(&mut upper);
        lower
    }
}

} // verus!
