//! Laws of squaring in a tower field: squaring respects sums and products,
//! and so do its iterates and the partial traces built from them.
use vstd::prelude::*;
use vstd::arithmetic::power2::{pow2, lemma_pow2_unfold};
use crate::field::tower_spec::{
    is_element, tower_zero, tower_add, tower_mul, tower_pow, tower_square, frobenius,
    partial_trace,
};
use crate::field::tower_laws::{
    lemma_mul_len, lemma_mul_commutative, lemma_mul_associative, lemma_mul_distributive,
    lemma_mul_distributive_left, lemma_add_len, lemma_pow_add, lemma_pow_one,
};

verus! {

/// The middle factors of a product of two products can change places.
pub proof fn lemma_mul_interchange(
    w: Seq<bool>,
    x: Seq<bool>,
    y: Seq<bool>,
    z: Seq<bool>,
    h: nat,
)
    requires
        is_element(w, h),
        is_element(x, h),
        is_element(y, h),
        is_element(z, h),
    ensures
        tower_mul(tower_mul(w, x), tower_mul(y, z)) == tower_mul(tower_mul(w, y), tower_mul(x, z)),
{
    lemma_mul_len(y, z, h);
    lemma_mul_len(x, z, h);
    lemma_mul_len(x, y, h);
    lemma_mul_len(y, x, h);
    // (w x)(y z) = w (x (y z)) = w ((x y) z) = w ((y x) z) = w (y (x z)) = (w y)(x z)
    lemma_mul_associative(w, x, tower_mul(y, z), h);
    lemma_mul_associative(x, y, z, h);
    lemma_mul_commutative(x, y, h);
    lemma_mul_associative(y, x, z, h);
    lemma_mul_associative(w, y, tower_mul(x, z), h);
}

/// The square of a sum is the sum of the squares.
pub proof fn lemma_square_add(x: Seq<bool>, y: Seq<bool>, h: nat)
    requires
        is_element(x, h),
        is_element(y, h),
    ensures
        tower_square(tower_add(x, y)) == tower_add(tower_square(x), tower_square(y)),
{
    lemma_add_len(x, y);
    lemma_mul_distributive(tower_add(x, y), x, y, h);
    lemma_mul_distributive_left(x, y, x, h);
    lemma_mul_distributive_left(x, y, y, h);
    lemma_mul_commutative(x, y, h);
    lemma_mul_len(x, x, h);
    lemma_mul_len(x, y, h);
    lemma_mul_len(y, y, h);
    assert(tower_add(
        tower_add(tower_mul(x, x), tower_mul(x, y)),
        tower_add(tower_mul(x, y), tower_mul(y, y)),
    ) =~= tower_add(tower_mul(x, x), tower_mul(y, y)));
}

/// The square of a product is the product of the squares.
pub proof fn lemma_square_mul(x: Seq<bool>, y: Seq<bool>, h: nat)
    requires
        is_element(x, h),
        is_element(y, h),
    ensures
        tower_square(tower_mul(x, y)) == tower_mul(tower_square(x), tower_square(y)),
{
    lemma_mul_interchange(x, y, x, y, h);
}

/// Squaring `k` times over gives an element of the same height.
pub proof fn lemma_frobenius_len(a: Seq<bool>, k: nat, h: nat)
    requires
        is_element(a, h),
    ensures
        is_element(frobenius(a, k), h),
    decreases k,
{
    if k > 0 {
        lemma_frobenius_len(a, (k - 1) as nat, h);
        lemma_mul_len(frobenius(a, (k - 1) as nat), frobenius(a, (k - 1) as nat), h);
    }
}

/// Squaring `k` times over respects sums.
pub proof fn lemma_frobenius_add(x: Seq<bool>, y: Seq<bool>, k: nat, h: nat)
    requires
        is_element(x, h),
        is_element(y, h),
    ensures
        frobenius(tower_add(x, y), k) == tower_add(frobenius(x, k), frobenius(y, k)),
    decreases k,
{
    if k > 0 {
        let j = (k - 1) as nat;
        lemma_frobenius_add(x, y, j, h);
        lemma_frobenius_len(x, j, h);
        lemma_frobenius_len(y, j, h);
        lemma_square_add(frobenius(x, j), frobenius(y, j), h);
    }
}

/// Squaring `k` times over respects products.
pub proof fn lemma_frobenius_mul(x: Seq<bool>, y: Seq<bool>, k: nat, h: nat)
    requires
        is_element(x, h),
        is_element(y, h),
    ensures
        frobenius(tower_mul(x, y), k) == tower_mul(frobenius(x, k), frobenius(y, k)),
    decreases k,
{
    if k > 0 {
        let j = (k - 1) as nat;
        lemma_frobenius_mul(x, y, j, h);
        lemma_frobenius_len(x, j, h);
        lemma_frobenius_len(y, j, h);
        lemma_square_mul(frobenius(x, j), frobenius(y, j), h);
    }
}

/// Squaring `j` times and then `k` times is squaring `j + k` times.
pub proof fn lemma_frobenius_compose(x: Seq<bool>, j: nat, k: nat)
    ensures
        frobenius(frobenius(x, j), k) == frobenius(x, j + k),
    decreases k,
{
    if k > 0 {
        lemma_frobenius_compose(x, j, (k - 1) as nat);
        assert(frobenius(x, j + k) == tower_square(frobenius(x, (j + k - 1) as nat)));
    }
}

/// Squaring before or after squaring `k` times over gives the same.
pub proof fn lemma_frobenius_square(x: Seq<bool>, k: nat)
    ensures
        frobenius(tower_square(x), k) == frobenius(x, k + 1),
        tower_square(frobenius(x, k)) == frobenius(x, k + 1),
{
    assert(frobenius(x, 1) == tower_square(frobenius(x, 0)));
    lemma_frobenius_compose(x, 1, k);
}

/// A partial trace is an element of the same height.
pub proof fn lemma_trace_len(a: Seq<bool>, k: nat, h: nat)
    requires
        is_element(a, h),
    ensures
        is_element(partial_trace(a, k), h),
    decreases k,
{
    if k > 0 {
        lemma_trace_len(a, (k - 1) as nat, h);
    }
}

/// Partial traces respect sums.
pub proof fn lemma_trace_add(x: Seq<bool>, y: Seq<bool>, k: nat, h: nat)
    requires
        is_element(x, h),
        is_element(y, h),
    ensures
        partial_trace(tower_add(x, y), k) == tower_add(partial_trace(x, k), partial_trace(y, k)),
    decreases k,
{
    if k == 0 {
        assert(tower_zero(x.len()) =~= tower_add(tower_zero(x.len()), tower_zero(y.len())));
    } else {
        let j = (k - 1) as nat;
        lemma_trace_add(x, y, j, h);
        lemma_frobenius_add(x, y, j, h);
        lemma_trace_len(x, j, h);
        lemma_trace_len(y, j, h);
        lemma_frobenius_len(x, j, h);
        lemma_frobenius_len(y, j, h);
        assert(tower_add(
            tower_add(partial_trace(x, j), partial_trace(y, j)),
            tower_add(frobenius(x, j), frobenius(y, j)),
        ) =~= tower_add(
            tower_add(partial_trace(x, j), frobenius(x, j)),
            tower_add(partial_trace(y, j), frobenius(y, j)),
        ));
    }
}

/// The partial trace of a square and that of the element differ by the
/// element and its last conjugate: all the summands between cancel.
pub proof fn lemma_trace_square(x: Seq<bool>, k: nat, h: nat)
    requires
        is_element(x, h),
    ensures
        tower_add(partial_trace(tower_square(x), k), partial_trace(x, k)) == tower_add(
            x,
            frobenius(x, k),
        ),
    decreases k,
{
    lemma_mul_len(x, x, h);
    if k == 0 {
        assert(tower_add(tower_zero(x.len()), tower_zero(x.len())) =~= tower_add(x, x));
    } else {
        let j = (k - 1) as nat;
        lemma_trace_square(x, j, h);
        lemma_frobenius_square(x, j);
        lemma_trace_len(x, j, h);
        lemma_trace_len(tower_square(x), j, h);
        lemma_frobenius_len(x, j, h);
        lemma_frobenius_len(x, k, h);
        let ts = partial_trace(tower_square(x), j);
        let t = partial_trace(x, j);
        let fj = frobenius(x, j);
        let fk = frobenius(x, k);
        assert(tower_add(ts, t) == tower_add(x, fj));
        assert(tower_add(tower_add(ts, fk), tower_add(t, fj)) =~= tower_add(
            tower_add(tower_add(ts, t), fj),
            fk,
        ));
        assert(tower_add(tower_add(tower_add(x, fj), fj), fk) =~= tower_add(x, fk));
    }
}

/// A partial trace over `j + k` summands is the one over the first `j` plus
/// the one over `k` of the conjugate that comes next.
pub proof fn lemma_trace_split(x: Seq<bool>, j: nat, k: nat, h: nat)
    requires
        is_element(x, h),
    ensures
        partial_trace(x, j + k) == tower_add(
            partial_trace(x, j),
            partial_trace(frobenius(x, j), k),
        ),
    decreases k,
{
    lemma_trace_len(x, j, h);
    lemma_frobenius_len(x, j, h);
    if k == 0 {
        assert(tower_add(partial_trace(x, j), tower_zero(x.len())) =~= partial_trace(x, j));
    } else {
        let k1 = (k - 1) as nat;
        lemma_trace_split(x, j, k1, h);
        lemma_frobenius_compose(x, j, k1);
        lemma_trace_len(frobenius(x, j), k1, h);
        lemma_frobenius_len(x, j + k1, h);
        assert(partial_trace(x, j + k) == tower_add(
            partial_trace(x, (j + k1) as nat),
            frobenius(x, (j + k1) as nat),
        ));
        assert(tower_add(
            tower_add(partial_trace(x, j), partial_trace(frobenius(x, j), k1)),
            frobenius(x, j + k1),
        ) =~= tower_add(
            partial_trace(x, j),
            tower_add(partial_trace(frobenius(x, j), k1), frobenius(x, j + k1)),
        ));
    }
}

/// Squaring `k` times over raises to the power `2^k`.
pub proof fn lemma_pow_is_frobenius(a: Seq<bool>, k: nat, h: nat)
    requires
        is_element(a, h),
    ensures
        tower_pow(a, pow2(k)) == frobenius(a, k),
    decreases k,
{
    if k == 0 {
        assert(pow2(0) == 1) by {
            vstd::arithmetic::power2::lemma2_to64();
        }
        lemma_pow_one(a, h);
    } else {
        let j = (k - 1) as nat;
        lemma_pow_is_frobenius(a, j, h);
        lemma_pow2_unfold(k);
        lemma_pow_add(a, pow2(j), pow2(j), h);
    }
}

} // verus!
