//! Laws of the integer encoding of coefficient vectors.
use vstd::prelude::*;
use vstd::arithmetic::power2::{pow2, lemma_pow2_pos, lemma_pow2_unfold};
use vstd::arithmetic::div_mod::{lemma_div_denominator, lemma_mod_breakdown};
use crate::field::tower_spec::{bits_value, bits_of, tower_embed, tower_mul, tower_mul_mixed};

verus! {

/// The value of `n` coefficients is below `2^n`.
pub proof fn lemma_bits_value_bound(a: Seq<bool>)
    ensures
        bits_value(a) < pow2(a.len()),
    decreases a.len(),
{
    if a.len() == 0 {
        lemma_pow2_pos(0);
    } else {
        lemma_bits_value_bound(a.skip(1));
        lemma_pow2_unfold(a.len());
    }
}

/// Dropping the lowest digit halves the number.
pub proof fn lemma_bits_of_skip(v: nat, n: nat)
    requires
        n > 0,
    ensures
        bits_of(v, n).skip(1) == bits_of(v / 2, (n - 1) as nat),
        bits_of(v, n)[0] == (v % 2 == 1),
{
    assert(pow2(0) == 1) by {
        vstd::arithmetic::power2::lemma2_to64();
    }
    assert forall|i: int| 0 <= i < n - 1 implies bits_of(v, n).skip(1)[i] == bits_of(
        v / 2,
        (n - 1) as nat,
    )[i] by {
        lemma_pow2_unfold((i + 1) as nat);
        lemma_pow2_pos(i as nat);
        lemma_div_denominator(v as int, 2, pow2(i as nat) as int);
    }
    assert(bits_of(v, n).skip(1) =~= bits_of(v / 2, (n - 1) as nat));
    assert(bits_of(v, n)[0] == ((v / pow2(0)) % 2 == 1));
}

/// Encoding the lowest `n` digits of a number gives the number modulo `2^n`.
pub proof fn lemma_bits_value_of_bits(v: nat, n: nat)
    ensures
        bits_value(bits_of(v, n)) == v % pow2(n),
    decreases n,
{
    if n == 0 {
        assert(pow2(0) == 1) by {
            vstd::arithmetic::power2::lemma2_to64();
        }
    } else {
        lemma_bits_of_skip(v, n);
        lemma_bits_value_of_bits(v / 2, (n - 1) as nat);
        lemma_pow2_unfold(n);
        lemma_pow2_pos((n - 1) as nat);
        lemma_mod_breakdown(v as int, 2, pow2((n - 1) as nat) as int);
    }
}

/// The digit of weight `2^i` of the value of `a` is the coefficient `a[i]`.
pub proof fn lemma_bits_value_digit(a: Seq<bool>, i: nat)
    requires
        i < a.len(),
    ensures
        ((bits_value(a) / pow2(i)) % 2 == 1) == a[i as int],
    decreases i,
{
    if i == 0 {
        assert(pow2(0) == 1) by {
            vstd::arithmetic::power2::lemma2_to64();
        }
    } else {
        lemma_bits_value_digit(a.skip(1), (i - 1) as nat);
        lemma_pow2_unfold(i);
        lemma_pow2_pos((i - 1) as nat);
        lemma_div_denominator(bits_value(a) as int, 2, pow2((i - 1) as nat) as int);
    }
}

/// Decoding the value of a coefficient vector gives the vector back.
pub proof fn lemma_bits_of_value(a: Seq<bool>)
    ensures
        bits_of(bits_value(a), a.len()) == a,
{
    assert forall|i: int| 0 <= i < a.len() implies bits_of(bits_value(a), a.len())[i] == a[i] by {
        lemma_bits_value_digit(a, i as nat);
    }
    assert(bits_of(bits_value(a), a.len()) =~= a);
}

/// Zeros above the coefficients do not change the value.
pub proof fn lemma_bits_value_embed(b: Seq<bool>, n: nat)
    requires
        b.len() <= n,
    ensures
        bits_value(tower_embed(b, n)) == bits_value(b),
    decreases n,
{
    let e = tower_embed(b, n);
    if n == 0 {
    } else if b.len() == 0 {
        assert(e.skip(1) =~= tower_embed(b, (n - 1) as nat));
        lemma_bits_value_embed(b, (n - 1) as nat);
    } else {
        assert(e.skip(1) =~= tower_embed(b.skip(1), (n - 1) as nat));
        lemma_bits_value_embed(b.skip(1), (n - 1) as nat);
    }
}

/// An element of a smaller field, taken as an element of a field with `n`
/// coefficients, is the element with `n` coefficients of the same value.
pub proof fn lemma_embed_is_bits_of(b: Seq<bool>, n: nat)
    requires
        b.len() <= n,
    ensures
        tower_embed(b, n) == bits_of(bits_value(b), n),
{
    lemma_bits_value_embed(b, n);
    lemma_bits_of_value(tower_embed(b, n));
}


/// The product with an element of a smaller field is the product with the
/// element of the same field that has the same value.
pub proof fn lemma_mixed_mul_is_mul_by_value(a: Seq<bool>, b: Seq<bool>)
    requires
        b.len() <= a.len(),
    ensures
        tower_mul_mixed(a, b) == tower_mul(a, bits_of(bits_value(b), a.len())),
{
    lemma_embed_is_bits_of(b, a.len());
}

/// The product with an element of a smaller field depends on the value of
/// that element alone, not on the field that it is taken from.
pub proof fn lemma_mixed_mul_same_value(a: Seq<bool>, b: Seq<bool>, c: Seq<bool>)
    requires
        b.len() <= a.len(),
        c.len() <= a.len(),
        bits_value(b) == bits_value(c),
    ensures
        tower_mul_mixed(a, b) == tower_mul_mixed(a, c),
{
    lemma_mixed_mul_is_mul_by_value(a, b);
    lemma_mixed_mul_is_mul_by_value(a, c);
}

} // verus!
