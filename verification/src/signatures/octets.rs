//! Integers as big-endian octet strings, and back.
use vstd::prelude::*;
use vstd::string::StringExecFns;
use vstd::arithmetic::div_mod::{
    lemma_div_denominator, lemma_mod_breakdown, lemma_small_mod, lemma_add_mod_noop,
    lemma_mul_mod_noop_general, lemma_mod_mod, lemma_fundamental_div_mod,
};

verus! {

/// `256^n`.
pub open spec fn pow256(n: nat) -> nat
    decreases n,
{
    if n == 0 {
        1
    } else {
        256 * pow256((n - 1) as nat)
    }
}

/// The `len` lowest base-256 digits of `x`, highest first.
pub open spec fn octets_of(x: nat, len: nat) -> Seq<u8>
    decreases len,
{
    if len == 0 {
        Seq::empty()
    } else {
        octets_of(x / 256, (len - 1) as nat).push((x % 256) as u8)
    }
}

/// The integer whose base-256 digits are the octets, highest first.
pub open spec fn octets_value(s: Seq<u8>) -> nat
    decreases s.len(),
{
    if s.len() == 0 {
        0
    } else {
        256 * octets_value(s.drop_last()) + s.last() as nat
    }
}

/// The decimal digit `d` as text.
pub open spec fn digit_text(d: nat) -> Seq<char> {
    if d == 0 {
        seq!['0']
    } else if d == 1 {
        seq!['1']
    } else if d == 2 {
        seq!['2']
    } else if d == 3 {
        seq!['3']
    } else if d == 4 {
        seq!['4']
    } else if d == 5 {
        seq!['5']
    } else if d == 6 {
        seq!['6']
    } else if d == 7 {
        seq!['7']
    } else if d == 8 {
        seq!['8']
    } else {
        seq!['9']
    }
}

/// `n` in decimal, without leading zeros.
pub open spec fn decimal_text(n: nat) -> Seq<char>
    decreases n,
{
    if n < 10 {
        digit_text(n)
    } else {
        decimal_text(n / 10) + digit_text(n % 10)
    }
}

/// What `i2osp` says of an integer that does not fit `length` octets.
pub open spec fn too_large_message(length: nat) -> Seq<char> {
    "Integer too large to encode in "@ + decimal_text(length) + " octets"@
}

/// `256^n` is positive.
pub proof fn lemma_pow256_positive(n: nat)
    ensures
        pow256(n) > 0,
    decreases n,
{
    if n > 0 {
        lemma_pow256_positive((n - 1) as nat);
    }
}

/// Dividing by `256^n` and then by 256 is dividing by `256^(n + 1)`.
pub proof fn lemma_pow256_div(x: nat, n: nat)
    ensures
        (x / pow256(n)) / 256 == x / pow256(n + 1),
        (x / 256) / pow256(n) == x / pow256(n + 1),
{
    lemma_pow256_positive(n);
    lemma_div_denominator(x as int, pow256(n) as int, 256);
    lemma_div_denominator(x as int, 256, pow256(n) as int);
    assert(pow256(n) * 256 == 256 * pow256(n)) by (nonlinear_arith);
}

/// The octet `k` places from the end is the digit of weight `256^k`.
pub proof fn lemma_octets_of_digit(x: nat, len: nat, k: nat)
    requires
        k < len,
    ensures
        octets_of(x, len).len() == len,
        octets_of(x, len)[len - 1 - k] == ((x / pow256(k)) % 256) as u8,
    decreases k,
{
    lemma_octets_of_len(x, len);
    lemma_octets_of_len(x / 256, (len - 1) as nat);
    let shorter = octets_of(x / 256, (len - 1) as nat);
    assert(octets_of(x, len) == shorter.push((x % 256) as u8));
    if k > 0 {
        lemma_octets_of_digit(x / 256, (len - 1) as nat, (k - 1) as nat);
        lemma_pow256_div(x, (k - 1) as nat);
        assert(octets_of(x, len)[len - 1 - k] == shorter[(len - 1) - 1 - (k - 1)]);
        assert(pow256(((k - 1) as nat) + 1) == pow256(k));
        assert((x / 256) / pow256((k - 1) as nat) == x / pow256(k));
    } else {
        assert(pow256(0) == 1);
        assert(octets_of(x, len)[len - 1] == (x % 256) as u8);
        assert(x / pow256(0) == x);
    }
}

/// `octets_of` gives as many octets as it is asked for.
pub proof fn lemma_octets_of_len(x: nat, len: nat)
    ensures
        octets_of(x, len).len() == len,
    decreases len,
{
    if len > 0 {
        lemma_octets_of_len(x / 256, (len - 1) as nat);
    }
}

/// Decoding the `len` lowest digits of `x` gives `x` modulo `256^len`; so an
/// integer that fits `len` octets is decoded to itself.
pub proof fn lemma_octets_round_trip(x: nat, len: nat)
    ensures
        octets_value(octets_of(x, len)) == x % pow256(len),
        x < pow256(len) ==> octets_value(octets_of(x, len)) == x,
    decreases len,
{
    lemma_pow256_positive(len);
    if len == 0 {
    } else {
        let m = (len - 1) as nat;
        let s = octets_of(x, len);
        lemma_octets_round_trip(x / 256, m);
        lemma_pow256_positive(m);
        assert(s.drop_last() =~= octets_of(x / 256, m));
        lemma_mod_breakdown(x as int, 256, pow256(m) as int);
    }
    if x < pow256(len) {
        lemma_small_mod(x, pow256(len));
    }
}

/// The text of one decimal digit.
fn digit_str(d: usize) -> (r: &'static str)
    requires
        d < 10,
    ensures
        r@ == digit_text(d as nat),
{
    proof {
        reveal_strlit("0");
        reveal_strlit("1");
        reveal_strlit("2");
        reveal_strlit("3");
        reveal_strlit("4");
        reveal_strlit("5");
        reveal_strlit("6");
        reveal_strlit("7");
        reveal_strlit("8");
        reveal_strlit("9");
    }
    let r = if d == 0 {
        "0"
    } else if d == 1 {
        "1"
    } else if d == 2 {
        "2"
    } else if d == 3 {
        "3"
    } else if d == 4 {
        "4"
    } else if d == 5 {
        "5"
    } else if d == 6 {
        "6"
    } else if d == 7 {
        "7"
    } else if d == 8 {
        "8"
    } else {
        "9"
    };
    assert(r@ =~= digit_text(d as nat));
    r
}

/// Appends `n` in decimal to `text`.
fn append_decimal(text: &mut String, n: usize)
    ensures
        final(text)@ == old(text)@ + decimal_text(n as nat),
    decreases n,
{
    if n >= 10 {
        append_decimal(text, n / 10);
    }
    text.append(digit_str(n % 10));
    proof {
        assert(final(text)@ =~= old(text)@ + decimal_text(n as nat)) by {
            if n >= 10 {
                assert((old(text)@ + decimal_text(n as nat / 10)) + digit_text(n as nat % 10)
                    =~= old(text)@ + (decimal_text(n as nat / 10) + digit_text(n as nat % 10)));
            }
        }
    }
}

/// Converts a nonnegative integer to an octet string of the given length:
/// its big-endian representation, padded on the left with zeros.
///
/// An integer of `256^length` or more does not fit, and is refused with a
/// message that names the length.
pub fn i2osp(x: usize, length: usize) -> (r: Result<Vec<u8>, String>)
    ensures
        r.is_err() == (x >= pow256(length as nat)),
        r matches Ok(v) ==> v@ == octets_of(x as nat, length as nat) && octets_value(v@) == x,
        r matches Err(m) ==> m@ == too_large_message(length as nat),
{
    // Whether x fits: strip up to `length` digits and see whether anything is left.
    let mut rest: usize = x;
    let mut stripped: usize = 0;
    assert(pow256(0) == 1);
    while stripped < length && rest > 0
        invariant
            stripped <= length,
            rest == x as nat / pow256(stripped as nat),
        decreases length - stripped,
    {
        proof {
            lemma_pow256_div(x as nat, stripped as nat);
        }
        rest = rest / 256;
        stripped += 1;
    }
    proof {
        lemma_fits(x as nat, stripped as nat, length as nat);
    }
    if rest > 0 {
        let mut message = String::from_str("Integer too large to encode in ");
        append_decimal(&mut message, length);
        message.append(" octets");
        return Err(message);
    }
    let mut result: Vec<u8> = Vec::new();
    let mut n: usize = 0;
    while n < length
        invariant
            n <= length,
            result.len() == n,
        decreases length - n,
    {
        result.push(0u8);
        n += 1;
    }
    let mut val: usize = x;
    let mut i: usize = length;
    proof {
        lemma_octets_of_len(x as nat, length as nat);
    }
    while i > 0
        invariant
            i <= length,
            result.len() == length,
            val == x as nat / pow256((length - i) as nat),
            octets_of(x as nat, length as nat).len() == length,
            forall|j: int|
                i <= j < length ==> result[j] == #[trigger] octets_of(x as nat, length as nat)[j],
        decreases i,
    {
        i -= 1;
        proof {
            lemma_octets_of_digit(x as nat, length as nat, (length - 1 - i) as nat);
            lemma_pow256_div(x as nat, (length - 1 - i) as nat);
        }
        result.set(i, (val % 256) as u8);
        val = val / 256;
    }
    proof {
        lemma_octets_of_len(x as nat, length as nat);
        assert(result@ =~= octets_of(x as nat, length as nat));
        lemma_octets_round_trip(x as nat, length as nat);
    }
    Ok(result)
}

/// Stripping digits until none is left, or `length` are gone, tells whether
/// `x` fits `length` octets.
proof fn lemma_fits(x: nat, stripped: nat, length: nat)
    requires
        stripped <= length,
        stripped == length || x / pow256(stripped) == 0,
    ensures
        (x / pow256(stripped) > 0) == (x >= pow256(length)),
{
    lemma_pow256_positive(stripped);
    lemma_pow256_positive(length);
    lemma_pow256_monotonic(stripped, length);
    lemma_fundamental_div_mod(x as int, pow256(stripped) as int);
    let q = x / pow256(stripped);
    let p = pow256(stripped);
    if q > 0 {
        assert(p * q >= p) by (nonlinear_arith)
            requires
                q >= 1,
                p > 0,
        ;
    } else {
        assert(p * q == 0) by (nonlinear_arith)
            requires
                q == 0,
        ;
    }
}

/// `256^n` does not decrease as `n` grows.
pub proof fn lemma_pow256_monotonic(a: nat, b: nat)
    requires
        a <= b,
    ensures
        pow256(a) <= pow256(b),
    decreases b,
{
    if a < b {
        lemma_pow256_monotonic(a, (b - 1) as nat);
    }
}

/// The value of an octet string, reduced to a machine word.
pub open spec fn word_value(s: Seq<u8>) -> nat {
    octets_value(s) % (usize::MAX as nat + 1)
}

/// Converts an octet string to the nonnegative integer that it represents in
/// big-endian order. Digits that do not fit a machine word are dropped.
pub fn os2ip(octets: &[u8]) -> (r: Result<usize, String>)
    ensures
        r matches Ok(v) && v == word_value(octets@),
{
    let mut ret: usize = 0;
    let mut i: usize = 0;
    proof {
        assert(octets@.subrange(0, 0) =~= Seq::<u8>::empty());
        lemma_small_mod(0, usize::MAX as nat + 1);
    }
    while i < octets.len()
        invariant
            i <= octets.len(),
            ret == word_value(octets@.subrange(0, i as int)),
        decreases octets.len() - i,
    {
        let byte = octets[i];
        proof {
            let m = usize::MAX as int + 1;
            let s = octets@.subrange(0, i + 1);
            let v = octets_value(octets@.subrange(0, i as int)) as int;
            assert(s.drop_last() =~= octets@.subrange(0, i as int));
            assert(s.last() == byte);
            // ((v % m) * 256 % m + byte) % m == (256 * v + byte) % m
            lemma_mul_mod_noop_general(v, 256, m);
            lemma_add_mod_noop(v * 256, byte as int, m);
            lemma_small_mod(byte as nat, m as nat);
            lemma_mod_mod(v, m, 1);
            assert(v * 256 == 256 * v) by (nonlinear_arith);
        }
        ret = ret.wrapping_mul(256).wrapping_add(byte as usize);
        i += 1;
    }
    proof {
        assert(octets@.subrange(0, octets@.len() as int) =~= octets@);
    }
    Ok(ret)
}

} // verus!
