//! From a message to a point of the extended curve: the message is expanded
//! to uniform octets, the octets are reduced to field elements, and the first
//! element from there on that is the `x` of a point gives the point.
use vstd::prelude::*;
use crate::field::element::FieldElement;
use crate::field::prime::{PlutoBaseField, PlutoScalarField};
use crate::field::extension::PlutoBaseFieldExtension;
use crate::curve::{AffinePoint, point_valid, point_sum, point_multiple};
use crate::hashes::sha3::{sha3_256, sha3_256_digest, lemma_digest_len};
use crate::signatures::octets::{i2osp, octets_of, pow256};
use crate::signatures::bls::{BlsError, sqrt_canonical, canonical_square_root};

verus! {

/// The tag that separates the scheme's use of the hash from any other.
pub open spec fn dst_tag() -> Seq<u8> {
    seq![
        66u8, 76u8, 83u8, 95u8, 83u8, 73u8, 71u8, 95u8, 80u8, 76u8, 85u8, 84u8, 79u8, 95u8,
        82u8, 79u8, 78u8, 75u8, 65u8, 84u8, 72u8, 79u8, 78u8, 95u8, 50u8, 48u8, 50u8, 52u8,
    ]
}

/// Two octet strings added bit by bit, over the length of the first.
pub open spec fn xor_octets(a: Seq<u8>, b: Seq<u8>) -> Seq<u8> {
    Seq::new(a.len(), |i: int| a[i] ^ b[i])
}

/// The tag followed by its length in one octet.
pub open spec fn tag_with_length(dst: Seq<u8>) -> Seq<u8> {
    dst.push(dst.len() as u8)
}

/// The digest that all the blocks of the expansion depend on: of a block of
/// zeros, the message, the length asked for in two octets, a zero octet and
/// the tag with its length.
pub open spec fn expansion_seed(msg: Seq<u8>, dst: Seq<u8>, len: nat) -> Seq<u8> {
    sha3_256_digest(
        Seq::new(64, |i: int| 0u8) + msg + octets_of(len, 2) + seq![0u8] + tag_with_length(dst),
    )
}

/// Block `i` of the expansion, counted from 1: the digest of the seed, added
/// bit by bit to the block before from the second block on, followed by `i`
/// in one octet and the tag with its length.
pub open spec fn expansion_block(seed: Seq<u8>, tag: Seq<u8>, i: nat) -> Seq<u8>
    decreases i,
{
    if i <= 1 {
        sha3_256_digest(seed + octets_of(1, 1) + tag)
    } else {
        sha3_256_digest(
            xor_octets(seed, expansion_block(seed, tag, (i - 1) as nat)) + octets_of(i, 1) + tag,
        )
    }
}

/// The first `n` blocks of the expansion, one after the other; at least one.
pub open spec fn expansion_blocks(seed: Seq<u8>, tag: Seq<u8>, n: nat) -> Seq<u8>
    decreases n,
{
    if n <= 1 {
        expansion_block(seed, tag, 1)
    } else {
        expansion_blocks(seed, tag, (n - 1) as nat) + expansion_block(seed, tag, n)
    }
}

/// `len` uniform octets derived from a message and a tag.
#[verifier::opaque]
pub open spec fn expanded_message(msg: Seq<u8>, dst: Seq<u8>, len: nat) -> Seq<u8> {
    expansion_blocks(
        expansion_seed(msg, dst, len),
        tag_with_length(dst),
        (len + 31) / 32,
    ).subrange(0, len as int)
}

/// The octets read as a big-endian integer, reduced modulo the order of the
/// base field.
pub open spec fn reduce_octets(tv: Seq<u8>) -> nat
    decreases tv.len(),
{
    if tv.len() == 0 {
        0
    } else {
        (reduce_octets(tv.drop_last()) * 256 + tv.last() as nat) % 101
    }
}

/// Element `i` of the field elements drawn from uniform octets: each of its
/// two coefficients is reduced from 64 octets of its own.
pub open spec fn field_element(uniform: Seq<u8>, i: int) -> PlutoBaseFieldExtension {
    PlutoBaseFieldExtension {
        c0: PlutoBaseField { value: reduce_octets(uniform.subrange(128 * i, 128 * i + 64)) as usize },
        c1: PlutoBaseField {
            value: reduce_octets(uniform.subrange(128 * i + 64, 128 * i + 128)) as usize,
        },
    }
}

/// The `count` field elements that a message is hashed to.
pub open spec fn hashed_elements(msg: Seq<u8>, count: nat) -> Seq<PlutoBaseFieldExtension> {
    Seq::new(count, |i: int| field_element(expanded_message(msg, dst_tag(), 128 * count), i))
}

/// `c` added to `p` `k` times.
pub open spec fn added_times(p: AffinePoint<PlutoBaseFieldExtension>, c: AffinePoint<
    PlutoBaseFieldExtension,
>, k: nat) -> AffinePoint<PlutoBaseFieldExtension>
    decreases k,
{
    if k == 0 {
        p
    } else {
        point_sum(added_times(p, c, (k - 1) as nat), c)
    }
}

/// The point taken into the group of order 17: multiplied by the cofactor as
/// a scalar, and, where adding the result to itself 17 times does not give
/// it back, with its `x` multiplied by the cube root of unity.
pub open spec fn cofactor_cleared(p: AffinePoint<PlutoBaseFieldExtension>) -> AffinePoint<
    PlutoBaseFieldExtension,
> {
    let cleared = point_multiple(p, (((101 * 101 - 1) / 17) % 17) as nat);
    if added_times(cleared, cleared, 17) != cleared {
        match cleared {
            AffinePoint::Point(x, y) => AffinePoint::Point(
                PlutoBaseFieldExtension::cube_root_of_unity_value().product(x),
                y,
            ),
            AffinePoint::Infinity => cleared,
        }
    } else {
        cleared
    }
}

/// The right-hand side of the curve's equation at `x`.
pub open spec fn curve_rhs(x: PlutoBaseFieldExtension) -> PlutoBaseFieldExtension {
    x.product(x).product(x).sum(PlutoBaseFieldExtension::small_value(3))
}

/// The point found from `x` in at most `tries` steps: the first of `x`,
/// `x + 1`, ... at which the curve's equation has a right-hand side that is
/// a square other than zero gives the point with the canonical root as `y`,
/// taken into the group of order 17.
pub open spec fn curve_point_from(x: PlutoBaseFieldExtension, tries: nat) -> Option<
    AffinePoint<PlutoBaseFieldExtension>,
>
    decreases tries,
{
    if tries == 0 {
        None
    } else {
        let y2 = curve_rhs(x);
        if y2 != PlutoBaseFieldExtension::small_value(0) && canonical_square_root(y2).is_some() {
            Some(cofactor_cleared(AffinePoint::Point(x, canonical_square_root(y2).unwrap())))
        } else {
            curve_point_from(
                x.sum(PlutoBaseFieldExtension::small_value(1)),
                (tries - 1) as nat,
            )
        }
    }
}

/// The point that a message is hashed to, if one is found in 100 steps.
#[verifier::opaque]
pub open spec fn hashed_point(msg: Seq<u8>) -> Option<AffinePoint<PlutoBaseFieldExtension>> {
    curve_point_from(hashed_elements(msg, 1)[0], 100)
}

/// Appends the octets of `s` to `v`.
pub fn append_octets(v: &mut Vec<u8>, s: &[u8])
    ensures
        final(v)@ == old(v)@ + s@,
{
    let mut i: usize = 0;
    while i < s.len()
        invariant
            i <= s.len(),
            v@ == old(v)@ + s@.subrange(0, i as int),
        decreases s.len() - i,
    {
        v.push(s[i]);
        i += 1;
        assert(v@ =~= old(v)@ + s@.subrange(0, i as int));
    }
    assert(s@.subrange(0, s@.len() as int) =~= s@);
}

fn zero_octets(n: usize) -> (r: Vec<u8>)
    ensures
        r@ == Seq::new(n as nat, |i: int| 0u8),
{
    let mut r: Vec<u8> = Vec::new();
    let mut i: usize = 0;
    while i < n
        invariant
            i <= n,
            r@ == Seq::new(i as nat, |k: int| 0u8),
        decreases n - i,
    {
        r.push(0u8);
        i += 1;
        assert(r@ =~= Seq::new(i as nat, |k: int| 0u8));
    }
    r
}

fn xor_with(a: &Vec<u8>, b: &Vec<u8>) -> (r: Vec<u8>)
    requires
        a.len() <= b.len(),
    ensures
        r@ == xor_octets(a@, b@),
{
    let mut r: Vec<u8> = Vec::new();
    let mut i: usize = 0;
    while i < a.len()
        invariant
            i <= a.len(),
            a.len() <= b.len(),
            r.len() == i,
            forall|j: int| 0 <= j < i ==> r[j] == a[j] ^ b[j],
        decreases a.len() - i,
    {
        r.push(a[i] ^ b[i]);
        i += 1;
    }
    proof {
        assert(r@ =~= xor_octets(a@, b@));
    }
    r
}

/// `256^1` and `256^2`.
proof fn lemma_small_powers()
    ensures
        pow256(1) == 256,
        pow256(2) == 65536,
{
    reveal_with_fuel(pow256, 3);
}

/// The expansion has as many octets as were asked for.
proof fn lemma_expansion_len(seed: Seq<u8>, tag: Seq<u8>, n: nat)
    ensures
        expansion_block(seed, tag, n).len() == 32,
        expansion_blocks(seed, tag, n).len() == (if n <= 1 {
            32
        } else {
            32 * n
        }),
    decreases n,
{
    if n > 1 {
        lemma_expansion_len(seed, tag, (n - 1) as nat);
        lemma_digest_len(
            xor_octets(seed, expansion_block(seed, tag, (n - 1) as nat)) + octets_of(n, 1) + tag,
        );
    } else {
        lemma_digest_len(seed + octets_of(1, 1) + tag);
    }
}

/// Expands a message and a tag to `len_in_bytes` uniform octets, with
/// SHA3-256 as the hash.
pub fn expand_message_xmd(msg: &[u8], dst: &[u8], len_in_bytes: usize) -> (r: Vec<u8>)
    requires
        len_in_bytes <= 65535,
        (len_in_bytes + 31) / 32 <= 255,
        dst.len() <= 255,
    ensures
        r@ == expanded_message(msg@, dst@, len_in_bytes as nat),
        r.len() == len_in_bytes,
{
    let ell = (len_in_bytes + 31) / 32;
    proof {
        reveal(expanded_message);
        lemma_small_powers();
    }
    // the tag, followed by its length
    let mut dst_prime: Vec<u8> = Vec::new();
    append_octets(&mut dst_prime, dst);
    dst_prime.push(dst.len() as u8);
    assert(dst_prime@ =~= tag_with_length(dst@));
    // a block of zeros, the message, the length asked for, zero, the tag
    let l_i_b_str = i2osp(len_in_bytes, 2).unwrap();
    let mut msg_prime = zero_octets(64);
    append_octets(&mut msg_prime, msg);
    append_octets(&mut msg_prime, l_i_b_str.as_slice());
    msg_prime.push(0u8);
    append_octets(&mut msg_prime, dst_prime.as_slice());
    assert(msg_prime@ =~= Seq::new(64, |i: int| 0u8) + msg@ + octets_of(len_in_bytes as nat, 2)
        + seq![0u8] + tag_with_length(dst@));
    let b_0 = sha3_256(msg_prime.as_slice());
    let ghost seed = b_0@;
    let ghost tag = dst_prime@;
    // the first block
    let mut input: Vec<u8> = Vec::new();
    append_octets(&mut input, b_0.as_slice());
    append_octets(&mut input, i2osp(1, 1).unwrap().as_slice());
    append_octets(&mut input, dst_prime.as_slice());
    assert(input@ =~= seed + octets_of(1, 1) + tag);
    let mut prev = sha3_256(input.as_slice());
    let mut uniform_bytes: Vec<u8> = Vec::new();
    append_octets(&mut uniform_bytes, prev.as_slice());
    assert(uniform_bytes@ =~= expansion_blocks(seed, tag, 1));
    // the blocks after it
    let mut i: usize = 2;
    while i <= ell
        invariant
            2 <= i <= 256,
            ell <= 255,
            i <= ell + 1 || ell < 2,
            ell < 2 ==> i == 2,
            b_0@ == seed,
            dst_prime@ == tag,
            seed.len() == 32,
            prev@ == expansion_block(seed, tag, (i - 1) as nat),
            uniform_bytes@ == expansion_blocks(seed, tag, (i - 1) as nat),
            pow256(1) == 256,
        decreases 256 - i,
    {
        proof {
            lemma_expansion_len(seed, tag, (i - 1) as nat);
        }
        let xored = xor_with(&b_0, &prev);
        let mut input: Vec<u8> = Vec::new();
        append_octets(&mut input, xored.as_slice());
        append_octets(&mut input, i2osp(i, 1).unwrap().as_slice());
        append_octets(&mut input, dst_prime.as_slice());
        assert(input@ =~= xor_octets(seed, prev@) + octets_of(i as nat, 1) + tag);
        prev = sha3_256(input.as_slice());
        append_octets(&mut uniform_bytes, prev.as_slice());
        i += 1;
    }
    proof {
        lemma_expansion_len(seed, tag, (i - 1) as nat);
        lemma_expansion_len(seed, tag, ell as nat);
        assert(expansion_blocks(seed, tag, (i - 1) as nat) == expansion_blocks(
            seed,
            tag,
            ell as nat,
        ));
    }
    uniform_bytes.truncate(len_in_bytes);
    uniform_bytes
}

fn reduce(tv: &[u8]) -> (r: usize)
    ensures
        r == reduce_octets(tv@),
        r < 101,
{
    let mut val: usize = 0;
    let mut k: usize = 0;
    assert(tv@.subrange(0, 0) =~= Seq::<u8>::empty());
    while k < tv.len()
        invariant
            k <= tv.len(),
            val < 101,
            val == reduce_octets(tv@.subrange(0, k as int)),
        decreases tv.len() - k,
    {
        proof {
            let s = tv@.subrange(0, k + 1);
            assert(s.drop_last() =~= tv@.subrange(0, k as int));
        }
        val = (val * 256 + tv[k] as usize) % 101;
        k += 1;
    }
    assert(tv@.subrange(0, tv@.len() as int) =~= tv@);
    val
}

fn tag_octets() -> (r: Vec<u8>)
    ensures
        r@ == dst_tag(),
{
    let mut r: Vec<u8> = Vec::new();
    r.push(66u8);
    r.push(76u8);
    r.push(83u8);
    r.push(95u8);
    r.push(83u8);
    r.push(73u8);
    r.push(71u8);
    r.push(95u8);
    r.push(80u8);
    r.push(76u8);
    r.push(85u8);
    r.push(84u8);
    r.push(79u8);
    r.push(95u8);
    r.push(82u8);
    r.push(79u8);
    r.push(78u8);
    r.push(75u8);
    r.push(65u8);
    r.push(84u8);
    r.push(72u8);
    r.push(79u8);
    r.push(78u8);
    r.push(95u8);
    r.push(50u8);
    r.push(48u8);
    r.push(50u8);
    r.push(52u8);
    assert(r@ =~= dst_tag());
    r
}

/// Hashes a message to `count` elements of the extension field.
pub fn hash_to_field(msg: &[u8], count: usize) -> (r: Vec<PlutoBaseFieldExtension>)
    requires
        count <= 63,
    ensures
        r@ == hashed_elements(msg@, count as nat),
        forall|i: int| 0 <= i < r.len() ==> r[i].valid(),
{
    let degree: usize = 2;
    let blen: usize = 64;
    let len_in_bytes = count * degree * blen;
    let dst = tag_octets();
    let uniform_bytes = expand_message_xmd(msg, dst.as_slice(), len_in_bytes);
    let mut result: Vec<PlutoBaseFieldExtension> = Vec::new();
    let mut i: usize = 0;
    while i < count
        invariant
            i <= count,
            count <= 63,
            uniform_bytes.len() == 128 * count,
            uniform_bytes@ == expanded_message(msg@, dst_tag(), 128 * count as nat),
            result.len() == i,
            forall|k: int| 0 <= k < i ==> result[k] == field_element(uniform_bytes@, k),
            forall|k: int| 0 <= k < i ==> result[k].valid(),
        decreases count - i,
    {
        let offset = 128 * i;
        let first = reduce(vstd::slice::slice_subrange(uniform_bytes.as_slice(), offset, offset + 64));
        let second = reduce(
            vstd::slice::slice_subrange(uniform_bytes.as_slice(), offset + 64, offset + 128),
        );
        result.push(
            PlutoBaseFieldExtension {
                c0: PlutoBaseField { value: first },
                c1: PlutoBaseField { value: second },
            },
        );
        i += 1;
    }
    proof {
        assert(result@ =~= hashed_elements(msg@, count as nat));
    }
    result
}

/// Takes a point into the group of order 17.
pub fn clear_cofactor(point: AffinePoint<PlutoBaseFieldExtension>) -> (r: AffinePoint<
    PlutoBaseFieldExtension,
>)
    requires
        point_valid(point),
    ensures
        point_valid(r),
        r == cofactor_cleared(point),
{
    let p = PlutoBaseField::order();
    let cofactor = (p * p - 1) / 17;
    let cleared = point.multiply(PlutoScalarField::new(cofactor).value);
    let mut sum = cleared;
    let mut k: usize = 0;
    while k < 17
        invariant
            k <= 17,
            point_valid(cleared),
            point_valid(sum),
            sum == added_times(cleared, cleared, k as nat),
        decreases 17 - k,
    {
        sum = sum.add(cleared);
        k += 1;
    }
    if !sum.same(cleared) {
        match cleared {
            AffinePoint::Point(x, y) => {
                let cube_root = PlutoBaseFieldExtension::cube_root_of_unity();
                AffinePoint::Point(cube_root.mul(x), y)
            },
            AffinePoint::Infinity => cleared,
        }
    } else {
        cleared
    }
}

/// Hashes a message to a point of the group of order 17 of the extended
/// curve. No point is found where none of 100 candidates for its `x` is one.
pub fn hash_to_curve(msg: &[u8]) -> (r: Result<AffinePoint<PlutoBaseFieldExtension>, BlsError>)
    ensures
        r.is_ok() == hashed_point(msg@).is_some(),
        r matches Ok(p) ==> point_valid(p) && Some(p) == hashed_point(msg@),
        r matches Err(e) ==> e is HashToCurveFailed,
{
    reveal(hashed_point);
    let field_elems = hash_to_field(msg, 1);
    let mut x = field_elems[0];
    let mut tries: usize = 0;
    while tries < 100
        invariant
            tries <= 100,
            x.valid(),
            hashed_point(msg@) == curve_point_from(x, (100 - tries) as nat),
        decreases 100 - tries,
    {
        let y2 = x.mul(x).mul(x).add(PlutoBaseFieldExtension::small(3));
        if !y2.same(PlutoBaseFieldExtension::small(0)) {
            match sqrt_canonical(&y2) {
                Some(y) => {
                    let cofactored = clear_cofactor(AffinePoint::Point(x, y));
                    if cofactored.multiply(PlutoScalarField::new(17).value).is_infinity() {
                        return Ok(cofactored);
                    }
                },
                None => {},
            }
        }
        x = x.add(PlutoBaseFieldExtension::one());
        tries += 1;
    }
    Err(BlsError::HashToCurveFailed)
}

} // verus!
