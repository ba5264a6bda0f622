//! Every level of the tower is a field: each element other than zero has an
//! inverse, and raising it to the order of the field less 2 gives it.
//!
//! The proof goes up the tower. At each level it shows that squaring as
//! often as the level has coefficients gives every element back, that the
//! generator and its inverse have trace 1, and from these that the equation
//! of the next generator has no root, so that no norm of an element other
//! than zero is zero.
use vstd::prelude::*;
use vstd::arithmetic::power2::{pow2, lemma_pow2_pos, lemma_pow2_unfold};
use crate::field::tower_spec::{
    is_element, low, high, tower_zero, tower_one, tower_generator, tower_generator_inverse,
    tower_add, times_generator, tower_mul, tower_square, frobenius, partial_trace, tower_lift,
    tower_conjugate, tower_norm, tower_pow, tower_inverse, tower_div, tower_rem,
};
use crate::field::tower_laws::{
    lemma_halves, lemma_join, lemma_height_zero, lemma_mul_len, lemma_times_generator_len,
    lemma_mul_commutative, lemma_mul_associative, lemma_mul_zero, lemma_mul_one,
    lemma_times_generator_zero, lemma_add_len, lemma_times_generator_shift,
    lemma_times_generator_is_mul, lemma_mul_distributive, lemma_mul_distributive_left,
    lemma_pow_len,
};
use crate::field::frobenius_laws::{
    lemma_mul_interchange, lemma_square_add, lemma_square_mul, lemma_frobenius_len,
    lemma_frobenius_add, lemma_frobenius_mul, lemma_frobenius_compose, lemma_frobenius_square,
    lemma_trace_len, lemma_trace_add, lemma_trace_square, lemma_trace_split,
    lemma_pow_is_frobenius,
};
use crate::field::pair_laws::{
    lemma_mul_pair, lemma_square_pair, lemma_lift, lemma_lift_scale, lemma_lift_mul,
    lemma_lift_frobenius, lemma_lift_trace, lemma_pair_decompose, lemma_norm,
};

verus! {

/// Zero and one differ.
pub proof fn lemma_zero_is_not_one(h: nat)
    ensures
        tower_zero(pow2(h)) != tower_one(pow2(h)),
{
    lemma_pow2_pos(h);
    assert(tower_one(pow2(h))[0]);
    assert(!tower_zero(pow2(h))[0]);
}

/// The product of zero with any element is zero, and that of one with any
/// element is the element.
pub proof fn lemma_mul_constants_left(a: Seq<bool>, h: nat)
    requires
        is_element(a, h),
    ensures
        tower_mul(tower_zero(pow2(h)), a) == tower_zero(pow2(h)),
        tower_mul(tower_one(pow2(h)), a) == a,
{
    lemma_mul_commutative(tower_zero(pow2(h)), a, h);
    lemma_mul_commutative(tower_one(pow2(h)), a, h);
    lemma_mul_zero(a, h);
    lemma_mul_one(a, h);
}

/// The generator of a level and its inverse are elements of the level, and
/// their product is one.
pub proof fn lemma_generator_inverse(h: nat)
    ensures
        is_element(tower_generator(pow2(h)), h),
        is_element(tower_generator_inverse(pow2(h)), h),
        tower_mul(tower_generator(pow2(h)), tower_generator_inverse(pow2(h))) == tower_one(
            pow2(h),
        ),
        h > 0 ==> tower_generator(pow2(h)) == tower_zero(pow2((h - 1) as nat)) + tower_one(
            pow2((h - 1) as nat),
        ),
        h > 0 ==> tower_generator_inverse(pow2(h)) == tower_generator(pow2((h - 1) as nat))
            + tower_one(pow2((h - 1) as nat)),
{
    let n = pow2(h);
    lemma_pow2_pos(h);
    if h == 0 {
        lemma_height_zero(tower_one(n));
        assert(tower_generator(n) =~= tower_one(n));
        lemma_mul_one(tower_one(n), h);
    } else {
        let m = (h - 1) as nat;
        let z = tower_zero(pow2(m));
        let o = tower_one(pow2(m));
        let t = tower_generator(pow2(m));
        lemma_pow2_unfold(h);
        lemma_pow2_pos(m);
        assert(n / 2 == pow2(m));
        assert(tower_generator(n) =~= z + o);
        lemma_mul_pair(z, o, t, o, m);
        lemma_mul_constants_left(t, m);
        lemma_mul_constants_left(o, m);
        lemma_times_generator_is_mul(o, m);
        assert(tower_add(z, o) =~= o);
        assert(tower_add(tower_add(z, t), t) =~= z);
        lemma_lift(o, m);
    }
}

/// How the generator of a level behaves under repeated squaring, in terms of
/// the generator `t` of the level below and its inverse `s`: after `k`
/// squarings its upper half is `t^(2^k) * s`, and its lower half `t^(2^k)`
/// times the partial trace of `s^2`.
proof fn lemma_generator_frobenius(h: nat, k: nat)
    requires
        h > 0,
    ensures
        ({
            let m = (h - 1) as nat;
            let t = tower_generator(pow2(m));
            let s = tower_generator_inverse(pow2(m));
            let ft = frobenius(t, k);
            &&& is_element(ft, m)
            &&& is_element(partial_trace(tower_square(s), k), m)
            &&& frobenius(tower_generator(pow2(h)), k) == tower_mul(
                ft,
                partial_trace(tower_square(s), k),
            ) + tower_mul(ft, s)
        }),
    decreases k,
{
    let m = (h - 1) as nat;
    let t = tower_generator(pow2(m));
    let s = tower_generator_inverse(pow2(m));
    let s2 = tower_square(s);
    let z = tower_zero(pow2(m));
    let o = tower_one(pow2(m));
    lemma_generator_inverse(m);
    lemma_generator_inverse(h);
    lemma_mul_len(s, s, m);
    lemma_frobenius_len(t, k, m);
    lemma_trace_len(s2, k, m);
    if k == 0 {
        lemma_mul_zero(t, m);
    } else {
        let j = (k - 1) as nat;
        lemma_generator_frobenius(h, j);
        let fj = frobenius(t, j);
        let fk = frobenius(t, k);
        let tj = partial_trace(s2, j);
        let a = tower_mul(fj, tj);
        let b = tower_mul(fj, s);
        lemma_mul_len(fj, tj, m);
        lemma_mul_len(fj, s, m);
        lemma_square_pair(a, b, m);
        // b^2 = fk * s^2
        lemma_square_mul(fj, s, m);
        // a^2 = fk * tj^2, and tj^2 = tj + s^2 + (s^2)^(2^j)
        lemma_square_mul(fj, tj, m);
        let fs = frobenius(s2, j);
        lemma_frobenius_len(s2, j, m);
        lemma_trace_square(s2, j, m);
        lemma_square_trace(s2, j, m);
        lemma_mul_len(s2, s2, m);
        lemma_trace_len(tower_square(s2), j, m);
        assert(tower_square(tj) == tower_add(tower_add(tj, s2), fs)) by {
            let ts = partial_trace(tower_square(s2), j);
            assert(tower_add(ts, tj) == tower_add(s2, fs));
            assert(ts =~= tower_add(tower_add(ts, tj), tj));
            assert(tower_add(tower_add(s2, fs), tj) =~= tower_add(tower_add(tj, s2), fs));
        }
        // lower half: fk * (tj^2 + s^2) = fk * (tj + fs) = fk * tk
        lemma_mul_len(fj, fj, m);
        lemma_mul_len(tj, tj, m);
        lemma_mul_distributive(fk, tower_square(tj), s2, m);
        assert(tower_add(tower_square(tj), s2) =~= tower_add(tj, fs));
        assert(tower_add(tower_square(a), tower_square(b)) == tower_mul(
            fk,
            partial_trace(s2, k),
        ));
        // upper half: G(b^2) = (fk * s^2) * t = fk * (s * (s * t)) = fk * s
        lemma_mul_len(fk, s2, m);
        lemma_times_generator_is_mul(tower_mul(fk, s2), m);
        lemma_mul_associative(fk, s2, t, m);
        lemma_mul_associative(s, s, t, m);
        lemma_mul_commutative(s, t, m);
        lemma_mul_one(s, m);
        assert(times_generator(tower_square(b)) == tower_mul(fk, s));
    }
}

/// The square of a partial trace is the partial trace of the square.
pub proof fn lemma_square_trace(x: Seq<bool>, k: nat, h: nat)
    requires
        is_element(x, h),
    ensures
        tower_square(partial_trace(x, k)) == partial_trace(tower_square(x), k),
    decreases k,
{
    lemma_mul_len(x, x, h);
    if k == 0 {
        lemma_mul_zero(tower_zero(pow2(h)), h);
    } else {
        let j = (k - 1) as nat;
        lemma_square_trace(x, j, h);
        lemma_trace_len(x, j, h);
        lemma_frobenius_len(x, j, h);
        lemma_square_add(partial_trace(x, j), frobenius(x, j), h);
        lemma_frobenius_square(x, j);
    }
}

/// Squaring the generator of a level half as often as the level has
/// coefficients gives its inverse, which is its conjugate.
proof fn lemma_generator_conjugate(h: nat)
    requires
        h > 0,
    ensures
        frobenius(tower_generator(pow2(h)), pow2((h - 1) as nat)) == tower_generator_inverse(
            pow2(h),
        ),
    decreases h, 0nat,
{
    let m = (h - 1) as nat;
    let k = pow2(m);
    let t = tower_generator(pow2(m));
    let s = tower_generator_inverse(pow2(m));
    let s2 = tower_square(s);
    let o = tower_one(pow2(m));
    lemma_generator_inverse(m);
    lemma_generator_inverse(h);
    lemma_generator_frobenius(h, k);
    lemma_frobenius_period(t, m);
    lemma_frobenius_period(s, m);
    lemma_generator_inverse_trace(m);
    // the partial trace of s^2 is that of s, which is one
    lemma_mul_len(s, s, m);
    lemma_trace_square(s, k, m);
    lemma_trace_len(s, k, m);
    lemma_trace_len(s2, k, m);
    assert(partial_trace(s2, k) == o) by {
        let ts = partial_trace(s2, k);
        assert(tower_add(ts, o) == tower_add(s, s));
        assert(ts =~= tower_add(tower_add(ts, o), o));
        assert(tower_add(tower_add(s, s), o) =~= o);
    }
    lemma_mul_one(t, m);
}

/// Squaring an element half as often as its level has coefficients gives its
/// conjugate over the level below.
proof fn lemma_frobenius_conjugate(a: Seq<bool>, h: nat)
    requires
        is_element(a, h),
        h > 0,
    ensures
        frobenius(a, pow2((h - 1) as nat)) == tower_conjugate(a),
        is_element(tower_conjugate(a), h),
    decreases h, 1nat,
{
    let m = (h - 1) as nat;
    let k = pow2(m);
    lemma_halves(a, h);
    let (a0, a1) = (low(a), high(a));
    let x = tower_generator(pow2(h));
    let t = tower_generator(pow2(m));
    let o = tower_one(pow2(m));
    lemma_generator_inverse(h);
    lemma_generator_inverse(m);
    lemma_pair_decompose(a0, a1, m);
    lemma_lift(a0, m);
    lemma_lift(a1, m);
    let ax = tower_mul(tower_lift(a1), x);
    lemma_frobenius_add(tower_lift(a0), ax, k, h);
    lemma_frobenius_mul(tower_lift(a1), x, k, h);
    lemma_lift_frobenius(a0, k, m);
    lemma_lift_frobenius(a1, k, m);
    lemma_frobenius_period(a0, m);
    lemma_frobenius_period(a1, m);
    lemma_generator_conjugate(h);
    // lift(a1) * (t + 1 X) = (a1 * t) + a1 X
    lemma_lift_scale(a1, t, o, m);
    lemma_times_generator_is_mul(a1, m);
    lemma_mul_one(a1, m);
    lemma_times_generator_len(a1, m);
    let g1 = times_generator(a1);
    assert(frobenius(a, k) == tower_add(tower_lift(a0), g1 + a1));
    assert(tower_add(tower_lift(a0), g1 + a1) =~= tower_add(a0, g1) + a1);
    lemma_join(tower_add(a0, g1), a1, m);
}

/// Squaring an element as often as its level has coefficients gives the
/// element back.
pub proof fn lemma_frobenius_period(a: Seq<bool>, h: nat)
    requires
        is_element(a, h),
    ensures
        frobenius(a, pow2(h)) == a,
    decreases h, 2nat,
{
    if h == 0 {
        lemma_height_zero(a);
        assert(pow2(0) == 1) by {
            vstd::arithmetic::power2::lemma2_to64();
        }
        assert(frobenius(a, 1) == tower_square(frobenius(a, 0)));
        assert(tower_square(a) =~= a);
    } else {
        let m = (h - 1) as nat;
        let k = pow2(m);
        lemma_pow2_unfold(h);
        lemma_halves(a, h);
        let c = tower_conjugate(a);
        lemma_frobenius_conjugate(a, h);
        lemma_frobenius_conjugate(c, h);
        lemma_frobenius_compose(a, k, k);
        let (a0, a1) = (low(a), high(a));
        let g1 = times_generator(a1);
        lemma_times_generator_len(a1, m);
        lemma_join(tower_add(a0, g1), a1, m);
        assert(tower_conjugate(c) =~= a0 + a1);
    }
}

/// The trace of the generator of a level, down to the two-element field, is
/// one.
pub proof fn lemma_generator_trace(h: nat)
    ensures
        partial_trace(tower_generator(pow2(h)), pow2(h)) == tower_one(pow2(h)),
    decreases h, 1nat,
{
    let n = pow2(h);
    lemma_generator_inverse(h);
    if h == 0 {
        lemma_trace_base(h);
    } else {
        let m = (h - 1) as nat;
        let k = pow2(m);
        let x = tower_generator(n);
        let s = tower_generator_inverse(n);
        let t = tower_generator(pow2(m));
        let z = tower_zero(pow2(m));
        let o = tower_one(pow2(m));
        lemma_pow2_unfold(h);
        lemma_generator_inverse(m);
        lemma_generator_conjugate(h);
        lemma_trace_split(x, k, k, h);
        lemma_trace_add(x, s, k, h);
        assert(tower_add(x, s) =~= tower_lift(t));
        lemma_lift_trace(t, k, m);
        lemma_generator_trace(m);
        lemma_lift(t, m);
    }
}

/// With one coefficient, the one-summand trace of the generator, which is
/// one, is one.
proof fn lemma_trace_base(h: nat)
    requires
        h == 0,
    ensures
        partial_trace(tower_generator(pow2(h)), pow2(h)) == tower_one(pow2(h)),
        partial_trace(tower_generator_inverse(pow2(h)), pow2(h)) == tower_one(pow2(h)),
{
    let n = pow2(h);
    assert(pow2(0) == 1) by {
        vstd::arithmetic::power2::lemma2_to64();
    }
    let o = tower_one(n);
    assert(tower_generator(n) =~= o);
    assert(partial_trace(o, 1) == tower_add(partial_trace(o, 0), frobenius(o, 0)));
    assert(tower_add(tower_zero(n), o) =~= o);
}

/// The trace of the inverse of the generator of a level is one.
pub proof fn lemma_generator_inverse_trace(h: nat)
    ensures
        partial_trace(tower_generator_inverse(pow2(h)), pow2(h)) == tower_one(pow2(h)),
    decreases h, 2nat,
{
    let n = pow2(h);
    lemma_generator_inverse(h);
    if h == 0 {
        lemma_trace_base(h);
    } else {
        let m = (h - 1) as nat;
        let k = pow2(m);
        let x = tower_generator(n);
        let s = tower_generator_inverse(n);
        let t = tower_generator(pow2(m));
        let z = tower_zero(pow2(m));
        let o = tower_one(pow2(m));
        lemma_pow2_unfold(h);
        lemma_generator_inverse(m);
        lemma_lift(t, m);
        // s = x + lift(t)
        assert(s =~= tower_add(x, tower_lift(t)));
        lemma_trace_add(x, tower_lift(t), n, h);
        lemma_generator_trace(h);
        // the trace of t over twice its own count of summands is zero
        lemma_lift_trace(t, n, m);
        lemma_trace_split(t, k, k, m);
        lemma_frobenius_period(t, m);
        lemma_generator_trace(m);
        assert(tower_add(o, o) =~= z);
        assert(partial_trace(t, n) == z);
        assert(tower_add(tower_one(n), tower_zero(n)) =~= tower_one(n));
    }
}

/// The equation `y^2 + y * T + 1 = 0`, which the generator of the next level
/// solves, has no root in the level of `T`.
pub proof fn lemma_no_root(y: Seq<bool>, h: nat)
    requires
        is_element(y, h),
    ensures
        tower_add(tower_add(tower_square(y), times_generator(y)), tower_one(pow2(h)))
            != tower_zero(pow2(h)),
{
    let n = pow2(h);
    let o = tower_one(n);
    let zero = tower_zero(n);
    let t = tower_generator(n);
    let s = tower_generator_inverse(n);
    let s2 = tower_square(s);
    let e = tower_add(tower_add(tower_square(y), times_generator(y)), o);
    lemma_generator_inverse(h);
    lemma_mul_len(y, y, h);
    lemma_mul_len(s, s, h);
    lemma_times_generator_len(y, h);
    if e == zero {
        let z = tower_mul(y, s);
        lemma_mul_len(y, s, h);
        lemma_mul_len(z, z, h);
        // e * s^2 = z^2 + z + s^2
        lemma_mul_constants_left(s2, h);
        lemma_add_len(tower_square(y), times_generator(y));
        lemma_mul_distributive_left(tower_add(tower_square(y), times_generator(y)), o, s2, h);
        lemma_mul_distributive_left(tower_square(y), times_generator(y), s2, h);
        lemma_square_mul(y, s, h);
        lemma_times_generator_is_mul(y, h);
        lemma_mul_interchange(y, t, s, s, h);
        lemma_mul_one(z, h);
        assert(tower_mul(e, s2) == tower_add(tower_add(tower_square(z), z), s2));
        assert(tower_add(tower_square(z), z) =~= s2) by {
            let w = tower_add(tower_square(z), z);
            assert(tower_add(w, s2) == zero);
            assert(w =~= tower_add(tower_add(w, s2), s2));
            assert(tower_add(zero, s2) =~= s2);
        }
        // the trace of z^2 + z is zero
        lemma_trace_add(tower_square(z), z, n, h);
        lemma_trace_square(z, n, h);
        lemma_frobenius_period(z, h);
        assert(tower_add(z, z) =~= zero);
        // the trace of s^2 is that of s, which is one
        lemma_trace_square(s, n, h);
        lemma_frobenius_period(s, h);
        lemma_generator_inverse_trace(h);
        lemma_trace_len(s2, n, h);
        assert(partial_trace(s2, n) == o) by {
            let ts = partial_trace(s2, n);
            assert(tower_add(ts, o) == tower_add(s, s));
            assert(ts =~= tower_add(tower_add(ts, o), o));
            assert(tower_add(tower_add(s, s), o) =~= o);
        }
        lemma_zero_is_not_one(h);
        assert(false);
    }
}

/// The square of an element that has an inverse is not zero.
proof fn lemma_square_zero(a: Seq<bool>, u: Seq<bool>, h: nat)
    requires
        is_element(a, h),
        is_element(u, h),
        tower_mul(a, u) == tower_one(pow2(h)),
    ensures
        tower_square(a) != tower_zero(pow2(h)),
{
    if tower_square(a) == tower_zero(pow2(h)) {
        lemma_mul_associative(a, a, u, h);
        lemma_mul_one(a, h);
        lemma_mul_constants_left(u, h);
        // a = a * (a * u) = (a * a) * u = 0, so 1 = a * u = 0
        lemma_zero_is_not_one(h);
        assert(false);
    }
}

/// Every element other than zero has an inverse.
pub proof fn lemma_inverse_exists(a: Seq<bool>, h: nat) -> (b: Seq<bool>)
    requires
        is_element(a, h),
        a != tower_zero(pow2(h)),
    ensures
        is_element(b, h),
        tower_mul(a, b) == tower_one(pow2(h)),
    decreases h,
{
    let n = pow2(h);
    if h == 0 {
        lemma_height_zero(a);
        if !a[0] {
            assert(a =~= tower_zero(n));
        }
        assert(a =~= tower_one(n));
        lemma_mul_one(a, h);
        tower_one(n)
    } else {
        let m = (h - 1) as nat;
        let zero = tower_zero(pow2(m));
        let o = tower_one(pow2(m));
        lemma_halves(a, h);
        let (a0, a1) = (low(a), high(a));
        let norm = tower_norm(a);
        lemma_norm(a, h);
        lemma_mul_len(a0, a0, m);
        lemma_mul_len(a1, a1, m);
        lemma_mul_len(a0, a1, m);
        lemma_times_generator_len(tower_mul(a0, a1), m);
        lemma_pow2_unfold(h);
        if norm == zero {
            if a1 == zero {
                if a0 == zero {
                    assert(a =~= tower_zero(n));
                }
                let u = lemma_inverse_exists(a0, m);
                lemma_square_zero(a0, u, m);
                lemma_mul_zero(a0, m);
                lemma_mul_zero(zero, m);
                lemma_times_generator_zero(m);
                assert(tower_add(tower_add(tower_square(a0), zero), zero) =~= tower_square(a0));
                assert(false);
            } else {
                let u = lemma_inverse_exists(a1, m);
                let u2 = tower_square(u);
                let y = tower_mul(a0, u);
                lemma_mul_len(u, u, m);
                lemma_mul_len(a0, u, m);
                // norm * u^2 = y^2 + G(y) + 1
                lemma_mul_constants_left(u2, m);
                let g = times_generator(tower_mul(a0, a1));
                lemma_add_len(tower_square(a0), g);
                lemma_mul_distributive_left(tower_add(tower_square(a0), g), tower_square(a1), u2, m);
                lemma_mul_distributive_left(tower_square(a0), g, u2, m);
                lemma_square_mul(a0, u, m);
                lemma_square_mul(a1, u, m);
                lemma_mul_one(o, m);
                lemma_times_generator_shift(tower_mul(a0, a1), u2, m);
                lemma_mul_interchange(a0, a1, u, u, m);
                lemma_mul_one(y, m);
                assert(tower_mul(norm, u2) == tower_add(
                    tower_add(tower_square(y), times_generator(y)),
                    o,
                ));
                lemma_no_root(y, m);
                assert(false);
            }
        }
        let ninv = lemma_inverse_exists(norm, m);
        let c = tower_conjugate(a);
        let b = tower_mul(c, tower_lift(ninv));
        lemma_lift(ninv, m);
        lemma_lift(norm, m);
        lemma_mul_len(c, tower_lift(ninv), h);
        lemma_mul_associative(a, c, tower_lift(ninv), h);
        lemma_lift_mul(norm, ninv, m);
        lemma_lift(o, m);
        b
    }
}

/// A product of two elements other than zero is not zero.
pub proof fn lemma_no_zero_divisors(a: Seq<bool>, b: Seq<bool>, h: nat)
    requires
        is_element(a, h),
        is_element(b, h),
        a != tower_zero(pow2(h)),
        b != tower_zero(pow2(h)),
    ensures
        tower_mul(a, b) != tower_zero(pow2(h)),
{
    if tower_mul(a, b) == tower_zero(pow2(h)) {
        let u = lemma_inverse_exists(b, h);
        lemma_mul_associative(a, b, u, h);
        lemma_mul_one(a, h);
        lemma_mul_constants_left(u, h);
        assert(false);
    }
}

/// The inverse of an element other than zero, its power to the order of the
/// field less 2, is an inverse: its product with the element is one.
pub proof fn lemma_inverse(a: Seq<bool>, h: nat)
    requires
        is_element(a, h),
        a != tower_zero(pow2(h)),
    ensures
        is_element(tower_inverse(a), h),
        tower_mul(a, tower_inverse(a)) == tower_one(pow2(h)),
        tower_mul(tower_inverse(a), a) == tower_one(pow2(h)),
{
    let n = pow2(h);
    let o = tower_one(n);
    lemma_pow2_pos(h);
    lemma_pow2_unfold(n);
    lemma_pow2_pos((n - 1) as nat);
    let e = (pow2(n) - 2) as nat;
    let inv = tower_pow(a, e);
    lemma_pow_len(a, e, h);
    // a^(2^n) = a
    lemma_pow_is_frobenius(a, n, h);
    lemma_frobenius_period(a, h);
    let inv_a = tower_mul(inv, a);
    assert(tower_pow(a, e + 1) == inv_a);
    assert(tower_pow(a, e + 2) == tower_mul(tower_pow(a, e + 1), a));
    assert(tower_mul(inv_a, a) == a);
    // cancel a
    let b = lemma_inverse_exists(a, h);
    lemma_mul_len(inv, a, h);
    lemma_mul_associative(inv_a, a, b, h);
    lemma_mul_one(inv_a, h);
    lemma_mul_commutative(inv, a, h);
}

/// Division undoes multiplication: for a divisor other than zero, the
/// quotient times the divisor is the dividend.
pub proof fn lemma_div_mul(a: Seq<bool>, b: Seq<bool>, h: nat)
    requires
        is_element(a, h),
        is_element(b, h),
        b != tower_zero(pow2(h)),
    ensures
        tower_mul(tower_div(a, b), b) == a,
{
    lemma_inverse(b, h);
    lemma_mul_associative(a, tower_inverse(b), b, h);
    lemma_mul_one(a, h);
}

/// For two elements other than zero, one over their product, times their
/// product, is one.
pub proof fn lemma_one_div_product(a: Seq<bool>, b: Seq<bool>, h: nat)
    requires
        is_element(a, h),
        is_element(b, h),
        a != tower_zero(pow2(h)),
        b != tower_zero(pow2(h)),
    ensures
        tower_mul(tower_div(tower_one(pow2(h)), tower_mul(a, b)), tower_mul(a, b)) == tower_one(
            pow2(h),
        ),
{
    lemma_no_zero_divisors(a, b, h);
    lemma_mul_len(a, b, h);
    lemma_div_mul(tower_one(pow2(h)), tower_mul(a, b), h);
}

/// In a field every element is a multiple of every other but zero: the
/// remainder is zero.
pub proof fn lemma_rem_zero(a: Seq<bool>, b: Seq<bool>, h: nat)
    requires
        is_element(a, h),
        is_element(b, h),
        b != tower_zero(pow2(h)),
    ensures
        tower_rem(a, b) == tower_zero(pow2(h)),
{
    lemma_div_mul(a, b, h);
    assert(tower_add(a, a) =~= tower_zero(pow2(h)));
}

} // verus!
