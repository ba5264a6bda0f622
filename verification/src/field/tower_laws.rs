//! Algebraic laws of the tower model.
use vstd::prelude::*;
use vstd::arithmetic::power2::{pow2, lemma_pow2_pos, lemma_pow2_unfold};
use crate::field::tower_spec::{
    is_element, low, high, tower_zero, tower_one, tower_generator, tower_add, tower_neg, tower_sub,
    times_generator, tower_mul, tower_embed, tower_pow,
};

verus! {

/// The halves of an element of height `h > 0` are elements of height `h - 1`,
/// and the element is its lower half followed by its upper half.
pub proof fn lemma_halves(a: Seq<bool>, h: nat)
    requires
        is_element(a, h),
        h > 0,
    ensures
        is_element(low(a), (h - 1) as nat),
        is_element(high(a), (h - 1) as nat),
        a.len() >= 2,
        low(a) + high(a) == a,
{
    lemma_pow2_unfold(h);
    lemma_pow2_pos((h - 1) as nat);
    assert(low(a) + high(a) =~= a);
}

/// Two elements of one height, one after the other, are an element of the
/// next height with those halves.
pub proof fn lemma_join(l: Seq<bool>, u: Seq<bool>, h: nat)
    requires
        is_element(l, h),
        is_element(u, h),
    ensures
        is_element(l + u, h + 1),
        low(l + u) == l,
        high(l + u) == u,
{
    lemma_pow2_unfold(h + 1);
    assert(low(l + u) =~= l);
    assert(high(l + u) =~= u);
}

/// An element of height 0 has one coefficient.
pub proof fn lemma_height_zero(a: Seq<bool>)
    requires
        is_element(a, 0),
    ensures
        a.len() == 1,
{
    vstd::arithmetic::power2::lemma2_to64();
}

/// The product by the generator is an element of the same height.
pub proof fn lemma_times_generator_len(c: Seq<bool>, h: nat)
    requires
        is_element(c, h),
    ensures
        is_element(times_generator(c), h),
    decreases h,
{
    if h == 0 {
        lemma_height_zero(c);
    } else {
        lemma_halves(c, h);
        lemma_times_generator_len(high(c), (h - 1) as nat);
        lemma_pow2_unfold(h);
    }
}

/// The product of two elements of one height is an element of that height.
pub proof fn lemma_mul_len(a: Seq<bool>, b: Seq<bool>, h: nat)
    requires
        is_element(a, h),
        is_element(b, h),
    ensures
        is_element(tower_mul(a, b), h),
    decreases h,
{
    if h == 0 {
        lemma_height_zero(a);
    } else {
        lemma_halves(a, h);
        lemma_halves(b, h);
        let m = (h - 1) as nat;
        lemma_mul_len(low(a), low(b), m);
        lemma_mul_len(high(a), high(b), m);
        lemma_mul_len(low(a), high(b), m);
        lemma_mul_len(high(a), low(b), m);
        lemma_times_generator_len(tower_mul(high(a), high(b)), m);
        lemma_pow2_unfold(h);
    }
}


/// The sum of two elements of one height is an element of that height.
pub proof fn lemma_add_len(a: Seq<bool>, b: Seq<bool>)
    requires
        a.len() == b.len(),
    ensures
        tower_add(a, b).len() == a.len(),
        low(tower_add(a, b)) == tower_add(low(a), low(b)),
        high(tower_add(a, b)) == tower_add(high(a), high(b)),
{
    assert(low(tower_add(a, b)) =~= tower_add(low(a), low(b)));
    assert(high(tower_add(a, b)) =~= tower_add(high(a), high(b)));
}

/// Characteristic 2: every element is its own additive inverse.
pub proof fn lemma_add_self(a: Seq<bool>)
    ensures
        tower_add(a, a) == tower_zero(a.len()),
{
    assert(tower_add(a, a) =~= tower_zero(a.len()));
}

/// Doubling any two elements of one height gives the same result.
pub proof fn lemma_add_self_same(a: Seq<bool>, b: Seq<bool>)
    requires
        a.len() == b.len(),
    ensures
        tower_add(a, a) == tower_add(b, b),
{
    lemma_add_self(a);
    lemma_add_self(b);
}

/// Addition is commutative.
pub proof fn lemma_add_commutative(a: Seq<bool>, b: Seq<bool>)
    requires
        a.len() == b.len(),
    ensures
        tower_add(a, b) == tower_add(b, a),
{
    assert(tower_add(a, b) =~= tower_add(b, a));
}

/// Subtraction is addition.
pub proof fn lemma_sub_is_add(a: Seq<bool>, b: Seq<bool>)
    ensures
        tower_sub(a, b) == tower_add(a, b),
{
}

/// Negation changes nothing.
pub proof fn lemma_neg_is_identity(a: Seq<bool>)
    ensures
        tower_neg(a) == a,
{
}

/// Adding a negation does not depend on which summand is negated.
pub proof fn lemma_add_neg_swap(a: Seq<bool>, b: Seq<bool>)
    ensures
        tower_add(a, tower_neg(b)) == tower_add(tower_neg(a), b),
{
}

/// The halves of zero, of one and of the generator.
pub proof fn lemma_constant_halves(h: nat)
    requires
        h > 0,
    ensures
        low(tower_zero(pow2(h))) == tower_zero(pow2((h - 1) as nat)),
        high(tower_zero(pow2(h))) == tower_zero(pow2((h - 1) as nat)),
        low(tower_one(pow2(h))) == tower_one(pow2((h - 1) as nat)),
        high(tower_one(pow2(h))) == tower_zero(pow2((h - 1) as nat)),
        low(tower_generator(pow2(h))) == tower_zero(pow2((h - 1) as nat)),
        high(tower_generator(pow2(h))) == tower_one(pow2((h - 1) as nat)),
{
    lemma_pow2_unfold(h);
    lemma_pow2_pos((h - 1) as nat);
    let n = pow2(h);
    let m = pow2((h - 1) as nat);
    assert(low(tower_zero(n)) =~= tower_zero(m));
    assert(high(tower_zero(n)) =~= tower_zero(m));
    assert(low(tower_one(n)) =~= tower_one(m));
    assert(high(tower_one(n)) =~= tower_zero(m));
    assert(low(tower_generator(n)) =~= tower_zero(m));
    assert(high(tower_generator(n)) =~= tower_one(m));
}

/// The product of zero with the generator is zero.
pub proof fn lemma_times_generator_zero(h: nat)
    ensures
        times_generator(tower_zero(pow2(h))) == tower_zero(pow2(h)),
    decreases h,
{
    let n = pow2(h);
    if h == 0 {
        lemma_height_zero(tower_zero(n));
    } else {
        let m = pow2((h - 1) as nat);
        lemma_constant_halves(h);
        lemma_pow2_unfold(h);
        lemma_pow2_pos((h - 1) as nat);
        lemma_times_generator_zero((h - 1) as nat);
        assert(tower_zero(m) + tower_add(tower_zero(m), tower_zero(m)) =~= tower_zero(n));
    }
}

/// The product by the generator distributes over addition.
pub proof fn lemma_times_generator_add(x: Seq<bool>, y: Seq<bool>, h: nat)
    requires
        is_element(x, h),
        is_element(y, h),
    ensures
        times_generator(tower_add(x, y)) == tower_add(times_generator(x), times_generator(y)),
    decreases h,
{
    if h == 0 {
        lemma_height_zero(x);
    } else {
        let m = (h - 1) as nat;
        lemma_halves(x, h);
        lemma_halves(y, h);
        lemma_add_len(x, y);
        lemma_times_generator_add(high(x), high(y), m);
        lemma_times_generator_len(high(x), m);
        lemma_times_generator_len(high(y), m);
        lemma_times_generator_len(x, h);
        lemma_times_generator_len(y, h);
        assert(times_generator(tower_add(x, y)) =~= tower_add(
            times_generator(x),
            times_generator(y),
        ));
    }
}

/// Zero annihilates: the product of any element with zero is zero.
pub proof fn lemma_mul_zero(a: Seq<bool>, h: nat)
    requires
        is_element(a, h),
    ensures
        tower_mul(a, tower_zero(a.len())) == tower_zero(a.len()),
    decreases h,
{
    let n = a.len();
    if h == 0 {
        lemma_height_zero(a);
        assert(tower_mul(a, tower_zero(n)) =~= tower_zero(n));
    } else {
        let m = (h - 1) as nat;
        lemma_halves(a, h);
        lemma_constant_halves(h);
        lemma_mul_zero(low(a), m);
        lemma_mul_zero(high(a), m);
        lemma_times_generator_zero(m);
        lemma_pow2_unfold(h);
        let z = tower_zero(pow2(m));
        assert(tower_add(z, z) + tower_add(tower_add(z, z), z) =~= tower_zero(n));
    }
}

/// One is the multiplicative identity.
pub proof fn lemma_mul_one(a: Seq<bool>, h: nat)
    requires
        is_element(a, h),
    ensures
        tower_mul(a, tower_one(a.len())) == a,
    decreases h,
{
    let n = a.len();
    if h == 0 {
        lemma_height_zero(a);
        assert(tower_mul(a, tower_one(n)) =~= a);
    } else {
        let m = (h - 1) as nat;
        lemma_halves(a, h);
        lemma_constant_halves(h);
        lemma_mul_zero(low(a), m);
        lemma_mul_zero(high(a), m);
        lemma_mul_one(low(a), m);
        lemma_mul_one(high(a), m);
        lemma_times_generator_zero(m);
        let z = tower_zero(pow2(m));
        assert(tower_add(low(a), z) + tower_add(tower_add(z, high(a)), z) =~= a);
    }
}

/// Multiplication is commutative.
pub proof fn lemma_mul_commutative(a: Seq<bool>, b: Seq<bool>, h: nat)
    requires
        is_element(a, h),
        is_element(b, h),
    ensures
        tower_mul(a, b) == tower_mul(b, a),
    decreases h,
{
    if h == 0 {
        lemma_height_zero(a);
        lemma_height_zero(b);
        assert(tower_mul(a, b) =~= tower_mul(b, a));
    } else {
        let m = (h - 1) as nat;
        lemma_halves(a, h);
        lemma_halves(b, h);
        lemma_mul_commutative(low(a), low(b), m);
        lemma_mul_commutative(high(a), high(b), m);
        lemma_mul_commutative(low(a), high(b), m);
        lemma_mul_commutative(high(a), low(b), m);
        lemma_mul_len(low(a), high(b), m);
        lemma_mul_len(high(a), low(b), m);
        lemma_add_commutative(tower_mul(low(a), high(b)), tower_mul(high(a), low(b)));
    }
}

/// The product by the generator is the product with the generator element.
pub proof fn lemma_times_generator_is_mul(c: Seq<bool>, h: nat)
    requires
        is_element(c, h),
    ensures
        times_generator(c) == tower_mul(c, tower_generator(c.len())),
{
    let n = c.len();
    if h == 0 {
        lemma_height_zero(c);
        assert(tower_mul(c, tower_generator(n)) =~= c);
    } else {
        let m = (h - 1) as nat;
        lemma_halves(c, h);
        lemma_constant_halves(h);
        lemma_mul_zero(low(c), m);
        lemma_mul_zero(high(c), m);
        lemma_mul_one(low(c), m);
        lemma_mul_one(high(c), m);
        lemma_times_generator_len(high(c), m);
        let z = tower_zero(pow2(m));
        assert(tower_add(z, high(c)) =~= high(c));
        assert(tower_add(tower_add(low(c), z), times_generator(high(c))) =~= tower_add(
            low(c),
            times_generator(high(c)),
        ));
    }
}

/// Multiplication distributes over addition.
pub proof fn lemma_mul_distributive(a: Seq<bool>, b: Seq<bool>, c: Seq<bool>, h: nat)
    requires
        is_element(a, h),
        is_element(b, h),
        is_element(c, h),
    ensures
        tower_mul(a, tower_add(b, c)) == tower_add(tower_mul(a, b), tower_mul(a, c)),
    decreases h,
{
    if h == 0 {
        lemma_height_zero(a);
        assert(tower_mul(a, tower_add(b, c)) =~= tower_add(tower_mul(a, b), tower_mul(a, c)));
    } else {
        let m = (h - 1) as nat;
        lemma_halves(a, h);
        lemma_halves(b, h);
        lemma_halves(c, h);
        lemma_add_len(b, c);
        let (a0, a1) = (low(a), high(a));
        let (b0, b1) = (low(b), high(b));
        let (c0, c1) = (low(c), high(c));
        lemma_mul_distributive(a0, b0, c0, m);
        lemma_mul_distributive(a1, b1, c1, m);
        lemma_mul_distributive(a0, b1, c1, m);
        lemma_mul_distributive(a1, b0, c0, m);
        lemma_mul_len(a0, b0, m);
        lemma_mul_len(a0, c0, m);
        lemma_mul_len(a1, b1, m);
        lemma_mul_len(a1, c1, m);
        lemma_mul_len(a0, b1, m);
        lemma_mul_len(a0, c1, m);
        lemma_mul_len(a1, b0, m);
        lemma_mul_len(a1, c0, m);
        lemma_times_generator_add(tower_mul(a1, b1), tower_mul(a1, c1), m);
        lemma_times_generator_len(tower_mul(a1, b1), m);
        lemma_times_generator_len(tower_mul(a1, c1), m);
        lemma_mul_len(a, b, h);
        lemma_mul_len(a, c, h);
        assert(tower_mul(a, tower_add(b, c)) =~= tower_add(tower_mul(a, b), tower_mul(a, c)));
    }
}

/// Multiplication distributes over addition on the left factor too.
pub proof fn lemma_mul_distributive_left(a: Seq<bool>, b: Seq<bool>, c: Seq<bool>, h: nat)
    requires
        is_element(a, h),
        is_element(b, h),
        is_element(c, h),
    ensures
        tower_mul(tower_add(a, b), c) == tower_add(tower_mul(a, c), tower_mul(b, c)),
{
    lemma_add_len(a, b);
    lemma_mul_commutative(tower_add(a, b), c, h);
    lemma_mul_distributive(c, a, b, h);
    lemma_mul_commutative(c, a, h);
    lemma_mul_commutative(c, b, h);
}


/// The generator can be moved through a product: multiplying either factor,
/// or the product itself, by the generator gives the same element.
pub proof fn lemma_times_generator_shift(x: Seq<bool>, y: Seq<bool>, h: nat)
    requires
        is_element(x, h),
        is_element(y, h),
    ensures
        tower_mul(times_generator(x), y) == times_generator(tower_mul(x, y)),
        tower_mul(x, times_generator(y)) == times_generator(tower_mul(x, y)),
    decreases h, 1nat,
{
    let g = tower_generator(x.len());
    assert(is_element(g, h));
    lemma_mul_len(x, y, h);
    lemma_times_generator_is_mul(x, h);
    lemma_times_generator_is_mul(y, h);
    lemma_times_generator_is_mul(tower_mul(x, y), h);
    // (x * y) * g == x * (y * g)
    lemma_mul_associative(x, y, g, h);
    // (x * g) * y == x * (g * y) == x * (y * g)
    lemma_mul_associative(x, g, y, h);
    lemma_mul_commutative(g, y, h);
}

/// Multiplication is associative.
pub proof fn lemma_mul_associative(a: Seq<bool>, b: Seq<bool>, c: Seq<bool>, h: nat)
    requires
        is_element(a, h),
        is_element(b, h),
        is_element(c, h),
    ensures
        tower_mul(tower_mul(a, b), c) == tower_mul(a, tower_mul(b, c)),
    decreases h, 0nat,
{
    if h == 0 {
        lemma_height_zero(a);
        lemma_height_zero(b);
        lemma_height_zero(c);
        assert(tower_mul(tower_mul(a, b), c) =~= tower_mul(a, tower_mul(b, c)));
    } else {
        let m = (h - 1) as nat;
        lemma_halves(a, h);
        lemma_halves(b, h);
        lemma_halves(c, h);
        let (a0, a1) = (low(a), high(a));
        let (b0, b1) = (low(b), high(b));
        let (c0, c1) = (low(c), high(c));
        // The halves of a * b and of b * c.
        let ab0 = tower_add(tower_mul(a0, b0), tower_mul(a1, b1));
        let gab = times_generator(tower_mul(a1, b1));
        let ab1 = tower_add(tower_add(tower_mul(a0, b1), tower_mul(a1, b0)), gab);
        let bc0 = tower_add(tower_mul(b0, c0), tower_mul(b1, c1));
        let gbc = times_generator(tower_mul(b1, c1));
        let bc1 = tower_add(tower_add(tower_mul(b0, c1), tower_mul(b1, c0)), gbc);
        lemma_mul_len(a0, b0, m);
        lemma_mul_len(a1, b1, m);
        lemma_mul_len(a0, b1, m);
        lemma_mul_len(a1, b0, m);
        lemma_mul_len(b0, c0, m);
        lemma_mul_len(b1, c1, m);
        lemma_mul_len(b0, c1, m);
        lemma_mul_len(b1, c0, m);
        lemma_times_generator_len(tower_mul(a1, b1), m);
        lemma_times_generator_len(tower_mul(b1, c1), m);
        assert(tower_mul(a, b) == ab0 + ab1);
        assert(tower_mul(b, c) == bc0 + bc1);
        lemma_join(ab0, ab1, m);
        lemma_join(bc0, bc1, m);
        // The eight products of three halves, each in one bracketing.
        let t000 = tower_mul(tower_mul(a0, b0), c0);
        let t001 = tower_mul(tower_mul(a0, b0), c1);
        let t010 = tower_mul(tower_mul(a0, b1), c0);
        let t011 = tower_mul(tower_mul(a0, b1), c1);
        let t100 = tower_mul(tower_mul(a1, b0), c0);
        let t101 = tower_mul(tower_mul(a1, b0), c1);
        let t110 = tower_mul(tower_mul(a1, b1), c0);
        let t111 = tower_mul(tower_mul(a1, b1), c1);
        lemma_mul_associative(a0, b0, c0, m);
        lemma_mul_associative(a0, b0, c1, m);
        lemma_mul_associative(a0, b1, c0, m);
        lemma_mul_associative(a0, b1, c1, m);
        lemma_mul_associative(a1, b0, c0, m);
        lemma_mul_associative(a1, b0, c1, m);
        lemma_mul_associative(a1, b1, c0, m);
        lemma_mul_associative(a1, b1, c1, m);
        lemma_mul_len(tower_mul(a0, b0), c0, m);
        lemma_mul_len(tower_mul(a0, b0), c1, m);
        lemma_mul_len(tower_mul(a0, b1), c0, m);
        lemma_mul_len(tower_mul(a0, b1), c1, m);
        lemma_mul_len(tower_mul(a1, b0), c0, m);
        lemma_mul_len(tower_mul(a1, b0), c1, m);
        lemma_mul_len(tower_mul(a1, b1), c0, m);
        lemma_mul_len(tower_mul(a1, b1), c1, m);
        let g011 = times_generator(t011);
        let g101 = times_generator(t101);
        let g110 = times_generator(t110);
        let g111 = times_generator(t111);
        let gg111 = times_generator(g111);
        lemma_times_generator_len(t011, m);
        lemma_times_generator_len(t101, m);
        lemma_times_generator_len(t110, m);
        lemma_times_generator_len(t111, m);
        lemma_times_generator_len(g111, m);

        // (a * b) * c, half by half.
        assert(tower_mul(ab0, c0) == tower_add(t000, t110)) by {
            lemma_mul_distributive_left(tower_mul(a0, b0), tower_mul(a1, b1), c0, m);
        }
        assert(tower_mul(ab0, c1) == tower_add(t001, t111)) by {
            lemma_mul_distributive_left(tower_mul(a0, b0), tower_mul(a1, b1), c1, m);
        }
        assert(tower_mul(ab1, c0) == tower_add(tower_add(t010, t100), g110)) by {
            lemma_add_len(tower_mul(a0, b1), tower_mul(a1, b0));
            lemma_mul_distributive_left(
                tower_add(tower_mul(a0, b1), tower_mul(a1, b0)),
                gab,
                c0,
                m,
            );
            lemma_mul_distributive_left(tower_mul(a0, b1), tower_mul(a1, b0), c0, m);
            lemma_times_generator_shift(tower_mul(a1, b1), c0, m);
        }
        assert(tower_mul(ab1, c1) == tower_add(tower_add(t011, t101), g111)) by {
            lemma_add_len(tower_mul(a0, b1), tower_mul(a1, b0));
            lemma_mul_distributive_left(
                tower_add(tower_mul(a0, b1), tower_mul(a1, b0)),
                gab,
                c1,
                m,
            );
            lemma_mul_distributive_left(tower_mul(a0, b1), tower_mul(a1, b0), c1, m);
            lemma_times_generator_shift(tower_mul(a1, b1), c1, m);
        }
        assert(times_generator(tower_mul(ab1, c1)) == tower_add(tower_add(g011, g101), gg111)) by {
            lemma_add_len(t011, t101);
            lemma_times_generator_add(tower_add(t011, t101), g111, m);
            lemma_times_generator_add(t011, t101, m);
        }

        // a * (b * c), half by half.
        assert(tower_mul(a0, bc0) == tower_add(t000, t011)) by {
            lemma_mul_distributive(a0, tower_mul(b0, c0), tower_mul(b1, c1), m);
        }
        assert(tower_mul(a1, bc0) == tower_add(t100, t111)) by {
            lemma_mul_distributive(a1, tower_mul(b0, c0), tower_mul(b1, c1), m);
        }
        assert(tower_mul(a0, bc1) == tower_add(tower_add(t001, t010), g011)) by {
            lemma_add_len(tower_mul(b0, c1), tower_mul(b1, c0));
            lemma_mul_distributive(
                a0,
                tower_add(tower_mul(b0, c1), tower_mul(b1, c0)),
                gbc,
                m,
            );
            lemma_mul_distributive(a0, tower_mul(b0, c1), tower_mul(b1, c0), m);
            lemma_times_generator_shift(a0, tower_mul(b1, c1), m);
        }
        assert(tower_mul(a1, bc1) == tower_add(tower_add(t101, t110), g111)) by {
            lemma_add_len(tower_mul(b0, c1), tower_mul(b1, c0));
            lemma_mul_distributive(
                a1,
                tower_add(tower_mul(b0, c1), tower_mul(b1, c0)),
                gbc,
                m,
            );
            lemma_mul_distributive(a1, tower_mul(b0, c1), tower_mul(b1, c0), m);
            lemma_times_generator_shift(a1, tower_mul(b1, c1), m);
        }
        assert(times_generator(tower_mul(a1, bc1)) == tower_add(tower_add(g101, g110), gg111)) by {
            lemma_add_len(t101, t110);
            lemma_times_generator_add(tower_add(t101, t110), g111, m);
            lemma_times_generator_add(t101, t110, m);
        }

        let lhs = tower_mul(ab0 + ab1, c);
        let rhs = tower_mul(a, bc0 + bc1);
        assert(lhs == tower_add(tower_mul(ab0, c0), tower_mul(ab1, c1)) + tower_add(
            tower_add(tower_mul(ab0, c1), tower_mul(ab1, c0)),
            times_generator(tower_mul(ab1, c1)),
        ));
        assert(rhs == tower_add(tower_mul(a0, bc0), tower_mul(a1, bc1)) + tower_add(
            tower_add(tower_mul(a0, bc1), tower_mul(a1, bc0)),
            times_generator(tower_mul(a1, bc1)),
        ));
        assert(lhs =~= rhs);
    }
}


/// The mixed terms of a product are what is left of the product of the sums
/// of the halves once the products of the lower and of the upper halves are
/// taken away.
pub proof fn lemma_karatsuba(a0: Seq<bool>, a1: Seq<bool>, b0: Seq<bool>, b1: Seq<bool>, h: nat)
    requires
        is_element(a0, h),
        is_element(a1, h),
        is_element(b0, h),
        is_element(b1, h),
    ensures
        tower_add(
            tower_add(tower_mul(tower_add(a0, a1), tower_add(b0, b1)), tower_mul(a0, b0)),
            tower_mul(a1, b1),
        ) == tower_add(tower_mul(a0, b1), tower_mul(a1, b0)),
{
    lemma_add_len(a0, a1);
    lemma_add_len(b0, b1);
    lemma_mul_distributive(tower_add(a0, a1), b0, b1, h);
    lemma_mul_distributive_left(a0, a1, b0, h);
    lemma_mul_distributive_left(a0, a1, b1, h);
    lemma_mul_len(a0, b0, h);
    lemma_mul_len(a0, b1, h);
    lemma_mul_len(a1, b0, h);
    lemma_mul_len(a1, b1, h);
    assert(tower_add(
        tower_add(tower_mul(tower_add(a0, a1), tower_add(b0, b1)), tower_mul(a0, b0)),
        tower_mul(a1, b1),
    ) =~= tower_add(tower_mul(a0, b1), tower_mul(a1, b0)));
}

/// An element of a smaller field, taken as an element of a larger one, has
/// itself as lower half and zero as upper half; taken as an element of its
/// own field it is unchanged.
pub proof fn lemma_embed_halves(b: Seq<bool>, h: nat, k: nat)
    requires
        is_element(b, k),
        k <= h,
    ensures
        is_element(tower_embed(b, pow2(h)), h),
        k == h ==> tower_embed(b, pow2(h)) == b,
        k < h ==> low(tower_embed(b, pow2(h))) == tower_embed(b, pow2((h - 1) as nat)),
        k < h ==> high(tower_embed(b, pow2(h))) == tower_zero(pow2((h - 1) as nat)),
{
    if k == h {
        assert(tower_embed(b, pow2(h)) =~= b);
    } else {
        lemma_pow2_unfold(h);
        if k < h - 1 {
            vstd::arithmetic::power2::lemma_pow2_strictly_increases(k, (h - 1) as nat);
        }
        assert(low(tower_embed(b, pow2(h))) =~= tower_embed(b, pow2((h - 1) as nat)));
        assert(high(tower_embed(b, pow2(h))) =~= tower_zero(pow2((h - 1) as nat)));
    }
}

/// The product with an element of a smaller field is taken half by half: the
/// lower half of the product is the product of the lower half, and the upper
/// half that of the upper half.
pub proof fn lemma_mul_embedded(a: Seq<bool>, b: Seq<bool>, h: nat, k: nat)
    requires
        is_element(a, h),
        is_element(b, k),
        k <= h,
    ensures
        k == h ==> tower_mul(a, tower_embed(b, a.len())) == tower_mul(a, b),
        k < h ==> tower_mul(a, tower_embed(b, a.len())) == tower_mul(
            low(a),
            tower_embed(b, low(a).len()),
        ) + tower_mul(high(a), tower_embed(b, high(a).len())),
{
    lemma_embed_halves(b, h, k);
    if k < h {
        let m = (h - 1) as nat;
        let e = tower_embed(b, pow2(m));
        let z = tower_zero(pow2(m));
        lemma_halves(a, h);
        lemma_embed_halves(b, m, k);
        lemma_mul_zero(low(a), m);
        lemma_mul_zero(high(a), m);
        lemma_times_generator_zero(m);
        lemma_mul_len(low(a), e, m);
        lemma_mul_len(high(a), e, m);
        let ab0 = tower_mul(low(a), e);
        let ab1 = tower_mul(high(a), e);
        assert(tower_add(ab0, z) =~= ab0);
        assert(tower_add(tower_add(z, ab1), z) =~= ab1);
    }
}


/// A power of an element is an element of the same height.
pub proof fn lemma_pow_len(a: Seq<bool>, n: nat, h: nat)
    requires
        is_element(a, h),
    ensures
        is_element(tower_pow(a, n), h),
    decreases n,
{
    if n > 0 {
        lemma_pow_len(a, (n - 1) as nat, h);
        lemma_mul_len(tower_pow(a, (n - 1) as nat), a, h);
    }
}

/// Exponents add: `a^(i + j)` is `a^i * a^j`.
pub proof fn lemma_pow_add(a: Seq<bool>, i: nat, j: nat, h: nat)
    requires
        is_element(a, h),
    ensures
        tower_pow(a, i + j) == tower_mul(tower_pow(a, i), tower_pow(a, j)),
    decreases j,
{
    lemma_pow_len(a, i, h);
    if j == 0 {
        lemma_mul_one(tower_pow(a, i), h);
    } else {
        let j1 = (j - 1) as nat;
        lemma_pow_add(a, i, j1, h);
        lemma_pow_len(a, j1, h);
        lemma_mul_associative(tower_pow(a, i), tower_pow(a, j1), a, h);
        assert(tower_pow(a, i + j) == tower_mul(tower_pow(a, (i + j1) as nat), a));
    }
}

/// The first power of an element is the element.
pub proof fn lemma_pow_one(a: Seq<bool>, h: nat)
    requires
        is_element(a, h),
    ensures
        tower_pow(a, 1) == a,
{
    assert(tower_pow(a, 1) == tower_mul(tower_pow(a, 0), a));
    lemma_mul_commutative(tower_one(a.len()), a, h);
    lemma_mul_one(a, h);
}

} // verus!
