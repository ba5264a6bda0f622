//! An element of one level as a pair of elements of the level below: how
//! products, squares and the elements of the lower field behave.
use vstd::prelude::*;
use vstd::arithmetic::power2::{pow2, lemma_pow2_pos, lemma_pow2_unfold};
use crate::field::tower_spec::{
    is_element, low, high, tower_zero, tower_one, tower_generator, tower_add, times_generator,
    tower_mul, tower_square, frobenius, partial_trace, tower_lift, tower_conjugate, tower_norm,
};
use crate::field::tower_laws::{
    lemma_halves, lemma_join, lemma_mul_len, lemma_times_generator_len, lemma_mul_commutative,
    lemma_mul_zero, lemma_mul_one, lemma_times_generator_zero, lemma_times_generator_shift,
    lemma_mul_distributive,
};
use crate::field::frobenius_laws::{lemma_frobenius_len, lemma_trace_len};

verus! {

/// The product of two pairs, written out by halves.
pub proof fn lemma_mul_pair(a0: Seq<bool>, a1: Seq<bool>, b0: Seq<bool>, b1: Seq<bool>, m: nat)
    requires
        is_element(a0, m),
        is_element(a1, m),
        is_element(b0, m),
        is_element(b1, m),
    ensures
        is_element(a0 + a1, m + 1),
        is_element(b0 + b1, m + 1),
        tower_mul(a0 + a1, b0 + b1) == tower_add(tower_mul(a0, b0), tower_mul(a1, b1)) + tower_add(
            tower_add(tower_mul(a0, b1), tower_mul(a1, b0)),
            times_generator(tower_mul(a1, b1)),
        ),
        is_element(tower_add(tower_mul(a0, b0), tower_mul(a1, b1)), m),
        is_element(
            tower_add(
                tower_add(tower_mul(a0, b1), tower_mul(a1, b0)),
                times_generator(tower_mul(a1, b1)),
            ),
            m,
        ),
{
    lemma_join(a0, a1, m);
    lemma_join(b0, b1, m);
    lemma_pow2_pos(m);
    lemma_pow2_unfold(m + 1);
    lemma_mul_len(a0, b0, m);
    lemma_mul_len(a1, b1, m);
    lemma_mul_len(a0, b1, m);
    lemma_mul_len(a1, b0, m);
    lemma_times_generator_len(tower_mul(a1, b1), m);
}

/// The square of a pair, written out by halves.
pub proof fn lemma_square_pair(a0: Seq<bool>, a1: Seq<bool>, m: nat)
    requires
        is_element(a0, m),
        is_element(a1, m),
    ensures
        tower_square(a0 + a1) == tower_add(tower_square(a0), tower_square(a1)) + times_generator(
            tower_square(a1),
        ),
{
    lemma_mul_pair(a0, a1, a0, a1, m);
    lemma_mul_commutative(a0, a1, m);
    lemma_mul_len(a0, a1, m);
    lemma_mul_len(a1, a1, m);
    lemma_times_generator_len(tower_mul(a1, a1), m);
    let g = times_generator(tower_mul(a1, a1));
    assert(tower_add(tower_add(tower_mul(a0, a1), tower_mul(a0, a1)), g) =~= g);
}

/// An element of the lower field is an element of the upper one, with
/// itself as lower half and zero as upper half; zero and one are taken to
/// zero and one.
pub proof fn lemma_lift(c: Seq<bool>, m: nat)
    requires
        is_element(c, m),
    ensures
        is_element(tower_lift(c), m + 1),
        low(tower_lift(c)) == c,
        high(tower_lift(c)) == tower_zero(pow2(m)),
        tower_lift(tower_zero(pow2(m))) == tower_zero(pow2(m + 1)),
        tower_lift(tower_one(pow2(m))) == tower_one(pow2(m + 1)),
{
    lemma_join(c, tower_zero(pow2(m)), m);
    lemma_pow2_unfold(m + 1);
    lemma_pow2_pos(m);
    assert(tower_lift(tower_zero(pow2(m))) =~= tower_zero(pow2(m + 1)));
    assert(tower_lift(tower_one(pow2(m))) =~= tower_one(pow2(m + 1)));
}

/// Taking elements of the lower field up respects sums.
pub proof fn lemma_lift_add(c: Seq<bool>, d: Seq<bool>, m: nat)
    requires
        is_element(c, m),
        is_element(d, m),
    ensures
        tower_lift(tower_add(c, d)) == tower_add(tower_lift(c), tower_lift(d)),
{
    assert(tower_lift(tower_add(c, d)) =~= tower_add(tower_lift(c), tower_lift(d)));
}

/// The product of a pair with an element of the lower field is taken half by
/// half.
pub proof fn lemma_lift_scale(c: Seq<bool>, b0: Seq<bool>, b1: Seq<bool>, m: nat)
    requires
        is_element(c, m),
        is_element(b0, m),
        is_element(b1, m),
    ensures
        tower_mul(tower_lift(c), b0 + b1) == tower_mul(c, b0) + tower_mul(c, b1),
        tower_mul(b0 + b1, tower_lift(c)) == tower_mul(c, b0) + tower_mul(c, b1),
{
    let z = tower_zero(pow2(m));
    lemma_mul_pair(c, z, b0, b1, m);
    lemma_lift(c, m);
    lemma_mul_commutative(z, b0, m);
    lemma_mul_commutative(z, b1, m);
    lemma_mul_zero(b0, m);
    lemma_mul_zero(b1, m);
    lemma_times_generator_zero(m);
    lemma_mul_len(c, b0, m);
    lemma_mul_len(c, b1, m);
    assert(tower_add(tower_mul(c, b0), z) =~= tower_mul(c, b0));
    assert(tower_add(tower_add(tower_mul(c, b1), z), z) =~= tower_mul(c, b1));
    lemma_join(b0, b1, m);
    lemma_mul_commutative(tower_lift(c), b0 + b1, m + 1);
}

/// Taking elements of the lower field up respects products.
pub proof fn lemma_lift_mul(c: Seq<bool>, d: Seq<bool>, m: nat)
    requires
        is_element(c, m),
        is_element(d, m),
    ensures
        tower_mul(tower_lift(c), tower_lift(d)) == tower_lift(tower_mul(c, d)),
{
    lemma_lift_scale(c, d, tower_zero(pow2(m)), m);
    lemma_mul_zero(c, m);
    lemma_mul_len(c, d, m);
}

/// Taking elements of the lower field up respects repeated squaring.
pub proof fn lemma_lift_frobenius(c: Seq<bool>, k: nat, m: nat)
    requires
        is_element(c, m),
    ensures
        frobenius(tower_lift(c), k) == tower_lift(frobenius(c, k)),
    decreases k,
{
    if k > 0 {
        let j = (k - 1) as nat;
        lemma_lift_frobenius(c, j, m);
        lemma_frobenius_len(c, j, m);
        lemma_lift_mul(frobenius(c, j), frobenius(c, j), m);
    }
}

/// Taking elements of the lower field up respects partial traces.
pub proof fn lemma_lift_trace(c: Seq<bool>, k: nat, m: nat)
    requires
        is_element(c, m),
    ensures
        partial_trace(tower_lift(c), k) == tower_lift(partial_trace(c, k)),
    decreases k,
{
    lemma_lift(c, m);
    if k == 0 {
    } else {
        let j = (k - 1) as nat;
        lemma_lift_trace(c, j, m);
        lemma_lift_frobenius(c, j, m);
        lemma_trace_len(c, j, m);
        lemma_frobenius_len(c, j, m);
        lemma_lift_add(partial_trace(c, j), frobenius(c, j), m);
    }
}

/// A pair is the lower half plus the upper half times the generator.
pub proof fn lemma_pair_decompose(a0: Seq<bool>, a1: Seq<bool>, m: nat)
    requires
        is_element(a0, m),
        is_element(a1, m),
    ensures
        a0 + a1 == tower_add(
            tower_lift(a0),
            tower_mul(tower_lift(a1), tower_generator(pow2(m + 1))),
        ),
        tower_generator(pow2(m + 1)) == tower_zero(pow2(m)) + tower_one(pow2(m)),
        is_element(tower_generator(pow2(m + 1)), m + 1),
        is_element(tower_mul(tower_lift(a1), tower_generator(pow2(m + 1))), m + 1),
{
    let z = tower_zero(pow2(m));
    let o = tower_one(pow2(m));
    lemma_pow2_unfold(m + 1);
    lemma_pow2_pos(m);
    assert(tower_generator(pow2(m + 1)) =~= z + o);
    lemma_lift_scale(a1, z, o, m);
    lemma_mul_zero(a1, m);
    lemma_mul_one(a1, m);
    lemma_lift(a0, m);
    lemma_lift(a1, m);
    assert(a0 + a1 =~= tower_add(tower_lift(a0), z + a1));
    lemma_join(z, a1, m);
}

/// The product of an element with its conjugate is its norm, an element of
/// the lower field.
pub proof fn lemma_norm(a: Seq<bool>, h: nat)
    requires
        is_element(a, h),
        h > 0,
    ensures
        is_element(tower_conjugate(a), h),
        is_element(tower_norm(a), (h - 1) as nat),
        tower_mul(a, tower_conjugate(a)) == tower_lift(tower_norm(a)),
{
    let m = (h - 1) as nat;
    lemma_halves(a, h);
    let (a0, a1) = (low(a), high(a));
    let g1 = times_generator(a1);
    let c0 = tower_add(a0, g1);
    lemma_times_generator_len(a1, m);
    lemma_join(c0, a1, m);
    lemma_mul_pair(a0, a1, c0, a1, m);
    // a0 * (a0 + g1) = a0^2 + G(a0 * a1)
    lemma_mul_distributive(a0, a0, g1, m);
    lemma_times_generator_shift(a0, a1, m);
    // a1 * (a0 + g1) = a1 * a0 + G(a1^2)
    lemma_mul_distributive(a1, a0, g1, m);
    lemma_times_generator_shift(a1, a1, m);
    lemma_mul_commutative(a0, a1, m);
    lemma_mul_len(a0, a0, m);
    lemma_mul_len(a1, a1, m);
    lemma_mul_len(a0, a1, m);
    lemma_times_generator_len(tower_mul(a0, a1), m);
    lemma_times_generator_len(tower_mul(a1, a1), m);
    let n = tower_norm(a);
    let lower = tower_add(tower_mul(a0, c0), tower_mul(a1, a1));
    let upper = tower_add(
        tower_add(tower_mul(a0, a1), tower_mul(a1, c0)),
        times_generator(tower_mul(a1, a1)),
    );
    assert(lower =~= n);
    assert(upper =~= tower_zero(pow2(m)));
    assert(a == a0 + a1);
}

} // verus!
