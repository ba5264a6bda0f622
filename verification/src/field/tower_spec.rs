//! The mathematical model of a binary tower field.
//!
//! An element of the field of height `h` is the vector of its `2^h`
//! coefficients over the two-element field, lowest first. Its lower half is an
//! element `low` of the field of height `h - 1`, its upper half an element
//! `high`, and the vector stands for `low + high * X`, where `X` is the
//! generator adjoined at height `h`. With `T` the generator adjoined one level
//! below (and 1 at the bottom), `X` satisfies `X * X = X * T + 1`.
use vstd::prelude::*;
use vstd::arithmetic::power2::pow2;

verus! {

/// Whether `a` has the `2^h` coefficients of an element of height `h`.
pub open spec fn is_element(a: Seq<bool>, h: nat) -> bool {
    a.len() == pow2(h)
}

/// The lower half of the coefficients.
pub open spec fn low(a: Seq<bool>) -> Seq<bool> {
    a.subrange(0, a.len() as int / 2)
}

/// The upper half of the coefficients.
pub open spec fn high(a: Seq<bool>) -> Seq<bool> {
    a.subrange(a.len() as int / 2, a.len() as int)
}

/// The additive identity with `n` coefficients.
pub open spec fn tower_zero(n: nat) -> Seq<bool> {
    Seq::new(n, |i: int| false)
}

/// The multiplicative identity with `n` coefficients.
pub open spec fn tower_one(n: nat) -> Seq<bool> {
    Seq::new(n, |i: int| i == 0)
}

/// The generator adjoined at the level with `n` coefficients: the vector
/// `(0, 1)` of halves. With a single coefficient it is the identity.
pub open spec fn tower_generator(n: nat) -> Seq<bool> {
    Seq::new(n, |i: int| i == n as int / 2)
}

/// Sum: coefficient by coefficient, exclusive or.
pub open spec fn tower_add(a: Seq<bool>, b: Seq<bool>) -> Seq<bool> {
    Seq::new(a.len(), |i: int| a[i] != b[i])
}

/// Additive inverse: in characteristic 2 every element is its own.
pub open spec fn tower_neg(a: Seq<bool>) -> Seq<bool> {
    a
}

/// Difference: the sum with the additive inverse.
pub open spec fn tower_sub(a: Seq<bool>, b: Seq<bool>) -> Seq<bool> {
    tower_add(a, tower_neg(b))
}

/// The product of `c` with the generator of its own level.
///
/// For `c = low + high * X` and `X * X = X * T + 1` this is
/// `high + (low + high * T) * X`.
pub open spec fn times_generator(c: Seq<bool>) -> Seq<bool>
    decreases c.len(),
{
    if c.len() <= 1 {
        c
    } else {
        high(c) + tower_add(low(c), times_generator(high(c)))
    }
}

/// Product. With one coefficient it is conjunction. Otherwise
/// `(a0 + a1 * X) * (b0 + b1 * X)` is reduced by `X * X = X * T + 1` to
/// `(a0 * b0 + a1 * b1) + (a0 * b1 + a1 * b0 + a1 * b1 * T) * X`.
pub open spec fn tower_mul(a: Seq<bool>, b: Seq<bool>) -> Seq<bool>
    decreases a.len(),
{
    if a.len() <= 1 {
        Seq::new(a.len(), |i: int| a[0] && b[0])
    } else {
        let ll = tower_mul(low(a), low(b));
        let hh = tower_mul(high(a), high(b));
        let lh = tower_mul(low(a), high(b));
        let hl = tower_mul(high(a), low(b));
        tower_add(ll, hh) + tower_add(tower_add(lh, hl), times_generator(hh))
    }
}

/// The square of `a`.
pub open spec fn tower_square(a: Seq<bool>) -> Seq<bool> {
    tower_mul(a, a)
}

/// `a` squared `k` times over: `a` raised to the power `2^k`.
pub open spec fn frobenius(a: Seq<bool>, k: nat) -> Seq<bool>
    decreases k,
{
    if k == 0 {
        a
    } else {
        tower_square(frobenius(a, (k - 1) as nat))
    }
}

/// The sum of `a`, its square, its fourth power, and so on: `k` summands.
/// Over all the coefficients' count of summands it is the trace of `a` down
/// to the two-element field.
pub open spec fn partial_trace(a: Seq<bool>, k: nat) -> Seq<bool>
    decreases k,
{
    if k == 0 {
        tower_zero(a.len())
    } else {
        tower_add(partial_trace(a, (k - 1) as nat), frobenius(a, (k - 1) as nat))
    }
}

/// The inverse of the generator adjoined at the level with `n` coefficients:
/// the generator plus the generator of the level below.
pub open spec fn tower_generator_inverse(n: nat) -> Seq<bool> {
    if n <= 1 {
        tower_one(n)
    } else {
        tower_generator(n / 2) + tower_one(n / 2)
    }
}

/// `a` multiplied by itself `n` times, starting from the identity.
pub open spec fn tower_pow(a: Seq<bool>, n: nat) -> Seq<bool>
    decreases n,
{
    if n == 0 {
        tower_one(a.len())
    } else {
        tower_mul(tower_pow(a, (n - 1) as nat), a)
    }
}

/// The number of elements of the field whose elements have `n` coefficients.
pub open spec fn tower_order(n: nat) -> nat {
    pow2(n)
}

/// The multiplicative inverse of a nonzero `a`: `a` raised to the order of
/// its field less 2.
pub open spec fn tower_inverse(a: Seq<bool>) -> Seq<bool> {
    tower_pow(a, (tower_order(a.len()) - 2) as nat)
}

/// The quotient of `a` by a nonzero `b`.
pub open spec fn tower_div(a: Seq<bool>, b: Seq<bool>) -> Seq<bool> {
    tower_mul(a, tower_inverse(b))
}

/// What is left of `a` once the multiple of `b` nearest to it is taken away.
pub open spec fn tower_rem(a: Seq<bool>, b: Seq<bool>) -> Seq<bool> {
    tower_sub(a, tower_mul(tower_div(a, b), b))
}

/// `b` as an element with `n` coefficients: its own, then zeros.
pub open spec fn tower_embed(b: Seq<bool>, n: nat) -> Seq<bool> {
    Seq::new(n, |i: int| i < b.len() && b[i])
}

/// The product of `a` with an element `b` of another field of the tower.
///
/// Where `b` is of a field no larger than that of `a`, it is taken as an
/// element of the field of `a`. Where it is of a larger field, the product
/// does not fit the field of `a`, and `a` is the result.
pub open spec fn tower_mul_mixed(a: Seq<bool>, b: Seq<bool>) -> Seq<bool> {
    if b.len() <= a.len() {
        tower_mul(a, tower_embed(b, a.len()))
    } else {
        a
    }
}

/// `c` as an element of the field one level up: its own coefficients, then as
/// many zeros.
pub open spec fn tower_lift(c: Seq<bool>) -> Seq<bool> {
    c + tower_zero(c.len())
}

/// The conjugate of `a` over the field one level below: for
/// `a = low + high * X` it is `(low + high * T) + high * X`, where `T` is the
/// generator of the level below.
pub open spec fn tower_conjugate(a: Seq<bool>) -> Seq<bool> {
    tower_add(low(a), times_generator(high(a))) + high(a)
}

/// The norm of `a` down to the field one level below, the product of `a`
/// with its conjugate: `low^2 + low * high * T + high^2`.
pub open spec fn tower_norm(a: Seq<bool>) -> Seq<bool> {
    tower_add(
        tower_add(tower_square(low(a)), times_generator(tower_mul(low(a), high(a)))),
        tower_square(high(a)),
    )
}

/// The integer whose binary digits are the coefficients, lowest first.
pub open spec fn bits_value(a: Seq<bool>) -> nat
    decreases a.len(),
{
    if a.len() == 0 {
        0
    } else {
        (if a[0] { 1nat } else { 0nat }) + 2 * bits_value(a.skip(1))
    }
}

/// The lowest `n` binary digits of `v`, lowest first.
pub open spec fn bits_of(v: nat, n: nat) -> Seq<bool> {
    Seq::new(n, |i: int| (v / pow2(i as nat)) % 2 == 1)
}

} // verus!
