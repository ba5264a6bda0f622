//! Aggregate signatures over the curve: keys, signatures, and the checks on
//! them that need no pairing.
use std::cmp::Ordering;
use vstd::prelude::*;
use vstd::string::StringExecFns;
use crate::field::element::FieldElement;
use rand::rngs::StdRng;
use rand::Rng;
use rand::SeedableRng;
use crate::field::prime::{PlutoBaseField, PlutoScalarField};
use crate::field::extension::PlutoBaseFieldExtension;
use crate::curve::{
    AffinePoint, point_valid, point_sum, point_multiple, base_generator, extended_point, generator,
    convert_to_extended,
};
use crate::hashes::hmac::{hmac_sha256, hmac_sha256_code};
use crate::pairing::{pairing, pairing_value};
use crate::signatures::hash_to_curve::{hash_to_curve, hashed_point};

verus! {

/// What can go wrong in an operation on keys and signatures.
#[derive(Debug)]
pub enum BlsError {
    /// The public key is not valid.
    InvalidPublicKey,
    /// The signature is not valid.
    InvalidSignature,
    /// No point of the curve was found for the message.
    HashToCurveFailed,
    /// The signature does not belong to the key and the message.
    VerificationFailed,
    /// Another failure, described in words.
    Other(String),
    /// A point that should have coordinates is the point at infinity.
    InvalidPoint,
}

/// A private key: a scalar.
pub struct BlsPrivateKey {
    sk: PlutoScalarField,
}

/// A public key: a point of the curve over the base field.
pub struct BlsPublicKey {
    pk: AffinePoint<PlutoBaseField>,
}

/// A signature: a point of the extended curve.
pub struct BlsSignature {
    sig: AffinePoint<PlutoBaseFieldExtension>,
}

/// A proof that the holder of a public key knows its private key.
pub struct ProofOfPossession {
    pop: BlsSignature,
}

/// How a check of a signature ends.
pub enum Verdict {
    /// The signature is accepted.
    Valid,
    /// A public key is not valid.
    InvalidPublicKey,
    /// The signature is not valid.
    InvalidSignature,
    /// No point of the curve was found for a message.
    HashToCurveFailed,
    /// The signature does not belong to the keys and the messages.
    VerificationFailed,
    /// The keys and messages handed in cannot be checked at all.
    Other,
    /// A point that should have coordinates is the point at infinity.
    InvalidPoint,
}

/// The verdict that a result of a check stands for.
pub open spec fn verdict_of(r: Result<(), BlsError>) -> Verdict {
    match r {
        Ok(_) => Verdict::Valid,
        Err(BlsError::InvalidPublicKey) => Verdict::InvalidPublicKey,
        Err(BlsError::InvalidSignature) => Verdict::InvalidSignature,
        Err(BlsError::HashToCurveFailed) => Verdict::HashToCurveFailed,
        Err(BlsError::VerificationFailed) => Verdict::VerificationFailed,
        Err(BlsError::Other(_)) => Verdict::Other,
        Err(BlsError::InvalidPoint) => Verdict::InvalidPoint,
    }
}

/// The generator of the base curve, taken to the extended curve.
pub open spec fn twisted_generator() -> AffinePoint<PlutoBaseFieldExtension> {
    extended_point(base_generator())
}

/// The salt that stands for none: as many zeros as the hash has octets.
pub open spec fn effective_salt(salt: Seq<u8>) -> Seq<u8> {
    if salt.len() == 0 {
        Seq::new(32, |i: int| 0u8)
    } else {
        salt
    }
}

/// The verdict on a signature of one message under one key: the key must be
/// valid and the message have a point, and the pairing of the signature with
/// the generator must be that of the message's point with the key.
pub open spec fn signature_verdict(
    pk: AffinePoint<PlutoBaseField>,
    msg: Seq<u8>,
    sig: AffinePoint<PlutoBaseFieldExtension>,
) -> Verdict {
    if pk == AffinePoint::<PlutoBaseField>::Infinity {
        Verdict::InvalidPublicKey
    } else {
        match hashed_point(msg) {
            None => Verdict::HashToCurveFailed,
            Some(h) => {
                if pairing_value(sig, twisted_generator()) == pairing_value(
                    h,
                    extended_point(pk),
                ) {
                    Verdict::Valid
                } else {
                    Verdict::VerificationFailed
                }
            },
        }
    }
}

/// The verdict on a proof of possession: the key must be valid, and the
/// pairing of the proof with the generator must be, up to sign, that of the
/// key with itself.
pub open spec fn possession_verdict(
    pop: AffinePoint<PlutoBaseFieldExtension>,
    pk: AffinePoint<PlutoBaseField>,
) -> Verdict {
    if pk == AffinePoint::<PlutoBaseField>::Infinity {
        Verdict::InvalidPublicKey
    } else if canonical_value(pairing_value(pop, twisted_generator())) == canonical_value(
        pairing_value(extended_point(pk), extended_point(pk)),
    ) {
        Verdict::Valid
    } else {
        Verdict::VerificationFailed
    }
}

/// The product of the pairings of the first `n` messages' points with their
/// keys, or the verdict on the first key or message that has none.
pub open spec fn pairing_product(pks: Seq<BlsPublicKey>, messages: Seq<&[u8]>, n: nat) -> Result<
    PlutoBaseFieldExtension,
    Verdict,
>
    decreases n,
{
    if n == 0 {
        Ok(PlutoBaseFieldExtension::small_value(1))
    } else {
        match pairing_product(pks, messages, (n - 1) as nat) {
            Err(v) => Err(v),
            Ok(acc) => {
                if pks[n - 1].point() == AffinePoint::<PlutoBaseField>::Infinity {
                    Err(Verdict::InvalidPublicKey)
                } else {
                    match hashed_point(messages[n - 1]@) {
                        None => Err(Verdict::HashToCurveFailed),
                        Some(h) => Ok(
                            acc.product(pairing_value(h, extended_point(pks[n - 1].point()))),
                        ),
                    }
                }
            },
        }
    }
}

/// The verdict on an aggregate signature of one message per key.
pub open spec fn aggregate_verdict(
    pks: Seq<BlsPublicKey>,
    messages: Seq<&[u8]>,
    sig: AffinePoint<PlutoBaseFieldExtension>,
) -> Verdict {
    if pks.len() == 0 || messages.len() == 0 || pks.len() != messages.len() {
        Verdict::Other
    } else {
        match pairing_product(pks, messages, pks.len()) {
            Err(v) => v,
            Ok(right) => {
                if canonical_value(pairing_value(sig, twisted_generator())) == canonical_value(
                    right,
                ) {
                    Verdict::Valid
                } else {
                    Verdict::VerificationFailed
                }
            },
        }
    }
}

/// The sum of the first `n` keys, each taken to the extended curve and made
/// canonical, or the verdict on the first key that is not valid.
pub open spec fn aggregate_key(pks: Seq<BlsPublicKey>, n: nat) -> Result<
    AffinePoint<PlutoBaseFieldExtension>,
    Verdict,
>
    decreases n,
{
    if n == 0 {
        Ok(AffinePoint::Infinity)
    } else {
        match aggregate_key(pks, (n - 1) as nat) {
            Err(v) => Err(v),
            Ok(acc) => {
                if pks[n - 1].point() == AffinePoint::<PlutoBaseField>::Infinity {
                    Err(Verdict::InvalidPublicKey)
                } else {
                    Ok(point_sum(acc, canonical_point(extended_point(pks[n - 1].point()))))
                }
            },
        }
    }
}

/// The verdict on an aggregate signature of one message under several keys.
pub open spec fn single_message_verdict(
    pks: Seq<BlsPublicKey>,
    msg: Seq<u8>,
    sig: AffinePoint<PlutoBaseFieldExtension>,
) -> Verdict {
    if pks.len() == 0 {
        Verdict::Other
    } else {
        match aggregate_key(pks, pks.len()) {
            Err(v) => v,
            Ok(key) => match hashed_point(msg) {
                None => Verdict::HashToCurveFailed,
                Some(h) => {
                    if canonical_value(pairing_value(sig, twisted_generator()))
                        == canonical_value(pairing_value(h, key)) {
                        Verdict::Valid
                    } else {
                        Verdict::VerificationFailed
                    }
                },
            },
        }
    }
}

/// Whether `a` comes before `b` when the coefficient of 1 is compared first
/// and the coefficient of `u` second.
pub open spec fn lex_less(a: PlutoBaseFieldExtension, b: PlutoBaseFieldExtension) -> bool {
    a.c0.value < b.c0.value || (a.c0.value == b.c0.value && a.c1.value < b.c1.value)
}

/// The one of `x` and `-x` that does not come after the other.
pub open spec fn canonical_value(x: PlutoBaseFieldExtension) -> PlutoBaseFieldExtension {
    if lex_less(x.negation(), x) {
        x.negation()
    } else {
        x
    }
}

/// The point with the same `x` and the canonical one of `y` and `-y`.
pub open spec fn canonical_point(p: AffinePoint<PlutoBaseFieldExtension>) -> AffinePoint<
    PlutoBaseFieldExtension,
> {
    match p {
        AffinePoint::Infinity => p,
        AffinePoint::Point(x, y) => AffinePoint::Point(x, canonical_value(y)),
    }
}

/// Whether `y` is an element whose square is `x`.
pub open spec fn is_square_root(y: PlutoBaseFieldExtension, x: PlutoBaseFieldExtension) -> bool {
    y.valid() && y.product(y) == x
}

/// Compares two elements of the extension field: by the coefficient of 1
/// first, by the coefficient of `u` where those are equal.
pub fn lex_cmp_extension(a: &PlutoBaseFieldExtension, b: &PlutoBaseFieldExtension) -> (r:
    Ordering)
    ensures
        (r == Ordering::Less) == lex_less(*a, *b),
        (r == Ordering::Greater) == lex_less(*b, *a),
{
    if a.c0.value < b.c0.value {
        Ordering::Less
    } else if a.c0.value > b.c0.value {
        Ordering::Greater
    } else if a.c1.value < b.c1.value {
        Ordering::Less
    } else if a.c1.value > b.c1.value {
        Ordering::Greater
    } else {
        Ordering::Equal
    }
}

/// The canonical one of an element and its negation: the one that does not
/// come after the other.
pub fn canonicalize_extension(x: PlutoBaseFieldExtension) -> (r: PlutoBaseFieldExtension)
    requires
        x.valid(),
    ensures
        r.valid(),
        r == canonical_value(x),
{
    let negated = x.neg();
    match lex_cmp_extension(&x, &negated) {
        Ordering::Greater => negated,
        _ => x,
    }
}

/// The point with its `y` made canonical.
pub fn canonicalize(point: AffinePoint<PlutoBaseFieldExtension>) -> (r: AffinePoint<
    PlutoBaseFieldExtension,
>)
    requires
        point_valid(point),
    ensures
        point_valid(r),
        r == canonical_point(point),
{
    match point {
        AffinePoint::Infinity => point,
        AffinePoint::Point(x, y) => AffinePoint::Point(x, canonicalize_extension(y)),
    }
}

/// The `n`-th element of the extension field in the order in which the
/// coefficient of 1 is compared first.
pub open spec fn candidate(n: int) -> PlutoBaseFieldExtension {
    PlutoBaseFieldExtension {
        c0: PlutoBaseField { value: (n / 101) as usize },
        c1: PlutoBaseField { value: (n % 101) as usize },
    }
}

/// The first element from the `n`-th on whose square is `x`, if there is one.
pub open spec fn least_root_from(x: PlutoBaseFieldExtension, n: int) -> Option<
    PlutoBaseFieldExtension,
>
    decreases 10201 - n,
{
    if n >= 10201 || n < 0 {
        None
    } else if candidate(n).product(candidate(n)) == x {
        Some(candidate(n))
    } else {
        least_root_from(x, n + 1)
    }
}

/// The canonical square root of `x`: of the elements whose square is `x`,
/// the one that comes first. There is none where `x` is no square.
pub open spec fn canonical_square_root(x: PlutoBaseFieldExtension) -> Option<
    PlutoBaseFieldExtension,
> {
    least_root_from(x, 0)
}

/// The canonical square root is a square root that no square root comes
/// before, and there is none only where there is no square root at all.
pub proof fn lemma_canonical_square_root(x: PlutoBaseFieldExtension)
    ensures
        canonical_square_root(x) matches Some(y) ==> is_square_root(y, x) && forall|
            z: PlutoBaseFieldExtension,
        | #[trigger] is_square_root(z, x) ==> !lex_less(z, y),
        canonical_square_root(x).is_none() ==> forall|z: PlutoBaseFieldExtension| !#[trigger]
            is_square_root(z, x),
{
    lemma_least_root(x, 0);
    assert forall|z: PlutoBaseFieldExtension| #[trigger] is_square_root(z, x) implies (
    canonical_square_root(x) matches Some(y) && !lex_less(z, y)) by {
        let n = z.c0.value * 101 + z.c1.value;
        assert(candidate(n as int) == z);
        assert(0 <= n < 10201);
    }
}

/// From the `n`-th element on, the first root found is a root, and no
/// element between the `n`-th and it is one.
proof fn lemma_least_root(x: PlutoBaseFieldExtension, n: int)
    requires
        0 <= n,
    ensures
        least_root_from(x, n) matches Some(y) ==> is_square_root(y, x) && forall|m: int|
            n <= m < 10201 && #[trigger] candidate(m).product(candidate(m)) == x ==> !lex_less(
                candidate(m),
                y,
            ),
        least_root_from(x, n).is_none() ==> forall|m: int|
            n <= m < 10201 ==> #[trigger] candidate(m).product(candidate(m)) != x,
    decreases 10201 - n,
{
    if n < 10201 {
        if candidate(n).product(candidate(n)) == x {
            assert forall|m: int|
                n <= m < 10201 && #[trigger] candidate(m).product(candidate(m))
                    == x implies !lex_less(candidate(m), candidate(n)) by {
                lemma_candidate_order(n, m);
            }
        } else {
            lemma_least_root(x, n + 1);
        }
    }
}

/// Elements come in the order of their numbers.
proof fn lemma_candidate_order(n: int, m: int)
    requires
        0 <= n <= m < 10201,
    ensures
        !lex_less(candidate(m), candidate(n)),
        candidate(n).valid(),
{
}

/// The canonical square root of `x`: of the elements whose square is `x`,
/// the one that comes first. There is none where `x` is no square.
pub fn sqrt_canonical(x: &PlutoBaseFieldExtension) -> (r: Option<PlutoBaseFieldExtension>)
    requires
        x.valid(),
    ensures
        r == canonical_square_root(*x),
        r matches Some(y) ==> is_square_root(y, *x) && forall|z: PlutoBaseFieldExtension| #[trigger]
            is_square_root(z, *x) ==> !lex_less(z, y),
        r.is_none() ==> forall|z: PlutoBaseFieldExtension| !#[trigger] is_square_root(z, *x),
{
    let mut n: usize = 0;
    while n < 10201
        invariant
            n <= 10201,
            x.valid(),
            canonical_square_root(*x) == least_root_from(*x, n as int),
        decreases 10201 - n,
    {
        let y = PlutoBaseFieldExtension {
            c0: PlutoBaseField { value: n / 101 },
            c1: PlutoBaseField { value: n % 101 },
        };
        if y.mul(y).same(*x) {
            proof {
                lemma_canonical_square_root(*x);
            }
            return Some(y);
        }
        n += 1;
    }
    proof {
        lemma_canonical_square_root(*x);
    }
    None
}

/// What is drawn from the generator seeded with `seed` when it is asked
/// first for an integer from `low` to `high`.
pub uninterp spec fn seeded_draw(seed: u64, low: u64, high: u64) -> u64;

/// Seeds `rand`'s standard generator with `StdRng::seed_from_u64` and draws
/// one 64-bit integer with `Rng::gen_range`. The draw lies between `low` and
/// `high`, both included, and the same seed and bounds give the same draw.
#[verifier::external_body]
fn draw_seeded(seed: u64, low: u64, high: u64) -> (r: u64)
    requires
        low <= high,
    ensures
        low <= r <= high,
        r == seeded_draw(seed, low, high),
{
    let mut rng = StdRng::seed_from_u64(seed);
    rng.gen_range(low..=high)
}

/// The first step of the key derivation of RFC 5869: the code that
/// authenticates the input keying material under the salt. An empty salt
/// stands for 32 zeros.
pub fn hkdf_extract(salt: &[u8], ikm: &[u8]) -> (r: Vec<u8>)
    ensures
        r@ == hmac_sha256_code(effective_salt(salt@), ikm@),
        r.len() == 32,
{
    if salt.len() == 0 {
        let mut zeros: Vec<u8> = Vec::new();
        let mut i: usize = 0;
        while i < 32
            invariant
                i <= 32,
                zeros@ == Seq::new(i as nat, |k: int| 0u8),
            decreases 32 - i,
        {
            zeros.push(0u8);
            i += 1;
            assert(zeros@ =~= Seq::new(i as nat, |k: int| 0u8));
        }
        hmac_sha256(zeros.as_slice(), ikm)
    } else {
        hmac_sha256(salt, ikm)
    }
}

/// The generator of the base curve, taken to the extended curve.
fn twisted() -> (r: AffinePoint<PlutoBaseFieldExtension>)
    ensures
        point_valid(r),
        r == twisted_generator(),
{
    convert_to_extended(generator())
}

/// The result of a check that ends with the given comparison of pairings.
fn compared(equal: bool) -> (r: Result<(), BlsError>)
    ensures
        equal ==> r.is_ok(),
        !equal ==> (r matches Err(e) && e is VerificationFailed),
{
    if equal {
        Ok(())
    } else {
        Err(BlsError::VerificationFailed)
    }
}

impl BlsPrivateKey {
    /// The scalar of the key, reduced.
    pub closed spec fn scalar(&self) -> nat {
        self.sk.value as nat
    }

    /// Whether the scalar is reduced.
    pub closed spec fn wf(&self) -> bool {
        self.sk.wf()
    }

    /// The key whose scalar is the residue of `value`.
    pub fn from_scalar(value: usize) -> (r: Self)
        ensures
            r.wf(),
            r.scalar() == value % 17,
    {
        BlsPrivateKey { sk: PlutoScalarField::new(value) }
    }

    /// The key that belongs to `seed`: its scalar is drawn from 1 to the
    /// order of the scalar field by a generator seeded with `seed`.
    pub fn generate_deterministic(seed: u64) -> (r: Self)
        ensures
            r.wf(),
            r.scalar() == seeded_draw(seed, 1, 17) % 17,
    {
        let drawn = draw_seeded(seed, 1, 17);
        Self::from_scalar(drawn as usize)
    }

    /// The public key: the generator multiplied by the scalar.
    pub fn public_key(&self) -> (r: BlsPublicKey)
        requires
            self.wf(),
        ensures
            r.wf(),
            r.point() == point_multiple(base_generator(), self.scalar()),
    {
        BlsPublicKey { pk: generator().multiply(self.sk.value) }
    }

    /// Signs a message: the point that the message is hashed to, multiplied by
    /// the scalar, with its `y` made canonical. There is no signature where
    /// the message has no point.
    pub fn sign(&self, msg: &[u8]) -> (r: Result<BlsSignature, BlsError>)
        requires
            self.wf(),
        ensures
            r.is_ok() == hashed_point(msg@).is_some(),
            r matches Ok(s) ==> s.wf() && s.point() == canonical_point(
                point_multiple(hashed_point(msg@).unwrap(), self.scalar()),
            ),
            r matches Err(e) ==> e is HashToCurveFailed,
    {
        match hash_to_curve(msg) {
            Err(e) => Err(e),
            Ok(hash_point) => {
                let sig_point = hash_point.multiply(self.sk.value);
                Ok(BlsSignature { sig: canonicalize(sig_point) })
            },
        }
    }

    /// The proof of possession: the public key, taken to the extended curve
    /// and multiplied by the scalar.
    pub fn generate_proof_of_possession(&self) -> (r: Result<ProofOfPossession, BlsError>)
        requires
            self.wf(),
        ensures
            r matches Ok(p) && p.signature().wf() && p.signature().point() == point_multiple(
                extended_point(point_multiple(base_generator(), self.scalar())),
                self.scalar(),
            ),
    {
        let pk = self.public_key();
        let pop = BlsSignature { sig: convert_to_extended(pk.pk).multiply(self.sk.value) };
        Ok(ProofOfPossession { pop })
    }
}

impl BlsPublicKey {
    /// The point of the key.
    pub closed spec fn point(&self) -> AffinePoint<PlutoBaseField> {
        self.pk
    }

    /// Whether the coordinates of the point are reduced.
    pub open spec fn wf(&self) -> bool {
        point_valid(self.point())
    }

    /// The key with the given point.
    pub fn from_point(pk: AffinePoint<PlutoBaseField>) -> (r: Self)
        ensures
            r.point() == pk,
    {
        BlsPublicKey { pk }
    }

    /// The point of the key.
    pub fn to_point(&self) -> (r: AffinePoint<PlutoBaseField>)
        ensures
            r == self.point(),
    {
        self.pk
    }

    /// Checks the key: its point must not be the point at infinity, and must
    /// be taken to it by the order of the group. The order is a multiple of
    /// the scalar field's, so as a scalar it is zero, and every other point
    /// passes.
    pub fn validate(&self) -> (r: Result<(), BlsError>)
        requires
            self.wf(),
        ensures
            r.is_err() == (self.point() == AffinePoint::<PlutoBaseField>::Infinity),
            r matches Err(e) ==> e is InvalidPublicKey,
    {
        if self.pk.is_infinity() {
            return Err(BlsError::InvalidPublicKey);
        }
        let subgroup_order = PlutoScalarField::new(17);
        if !self.pk.multiply(subgroup_order.value).is_infinity() {
            return Err(BlsError::InvalidPublicKey);
        }
        Ok(())
    }
}

impl BlsPublicKey {
    /// Checks a signature of a message under this key.
    pub fn verify(&self, msg: &[u8], signature: &BlsSignature) -> (r: Result<(), BlsError>)
        requires
            self.wf(),
            signature.wf(),
        ensures
            verdict_of(r) == signature_verdict(self.point(), msg@, signature.point()),
    {
        match self.validate() {
            Err(e) => {
                return Err(e);
            },
            Ok(_) => {},
        }
        let hash_point = match hash_to_curve(msg) {
            Err(e) => {
                return Err(e);
            },
            Ok(p) => p,
        };
        let g = twisted();
        let pk = convert_to_extended(self.pk);
        let left = pairing(signature.sig, g);
        let right = pairing(hash_point, pk);
        compared(left.same(right))
    }
}

impl ProofOfPossession {
    /// Checks the proof of possession of a public key.
    pub fn verify(&self, pk: &BlsPublicKey) -> (r: Result<(), BlsError>)
        requires
            self.signature().wf(),
            pk.wf(),
        ensures
            verdict_of(r) == possession_verdict(self.signature().point(), pk.point()),
    {
        match pk.validate() {
            Err(e) => {
                return Err(e);
            },
            Ok(_) => {},
        }
        let g = twisted();
        let pk_ext = convert_to_extended(pk.pk);
        let left = pairing(self.pop.sig, g);
        let right = pairing(pk_ext, pk_ext);
        compared(canonicalize_extension(left).same(canonicalize_extension(right)))
    }
}

/// Checks an aggregate signature against one message per key: the pairing
/// of the signature with the generator must be, up to sign, the product of
/// the pairings of the messages' points with their keys.
pub fn verify_aggregated_signature(
    pks: &[BlsPublicKey],
    messages: &[&[u8]],
    aggregated_sig: &BlsSignature,
) -> (r: Result<(), BlsError>)
    requires
        forall|i: int| 0 <= i < pks@.len() ==> pks@[i].wf(),
        aggregated_sig.wf(),
    ensures
        verdict_of(r) == aggregate_verdict(pks@, messages@, aggregated_sig.point()),
        r matches Err(BlsError::Other(m)) ==> m@ == "Invalid input lengths"@,
{
    if pks.len() == 0 || messages.len() == 0 || pks.len() != messages.len() {
        return Err(BlsError::Other(String::from_str("Invalid input lengths")));
    }
    let g = twisted();
    let left = pairing(aggregated_sig.sig, g);
    let mut right = PlutoBaseFieldExtension::one();
    let mut i: usize = 0;
    while i < pks.len()
        invariant
            i <= pks.len(),
            pks.len() == messages.len(),
            forall|k: int| 0 <= k < pks@.len() ==> pks@[k].wf(),
            right.valid(),
            pairing_product(pks@, messages@, i as nat) == Ok::<PlutoBaseFieldExtension, Verdict>(
                right,
            ),
        decreases pks.len() - i,
    {
        match pks[i].validate() {
            Err(e) => {
                proof {
                    lemma_pairing_product_fails(pks@, messages@, (i + 1) as nat, pks@.len());
                }
                return Err(e);
            },
            Ok(_) => {},
        }
        let hash_point = match hash_to_curve(messages[i]) {
            Err(e) => {
                proof {
                    lemma_pairing_product_fails(pks@, messages@, (i + 1) as nat, pks@.len());
                }
                return Err(e);
            },
            Ok(p) => p,
        };
        let pk_extended = convert_to_extended(pks[i].pk);
        right = right.mul(pairing(hash_point, pk_extended));
        i += 1;
    }
    compared(canonicalize_extension(left).same(canonicalize_extension(right)))
}

/// Once the product of pairings has failed for some keys and messages, it
/// fails in the same way for any more of them.
proof fn lemma_pairing_product_fails(pks: Seq<BlsPublicKey>, messages: Seq<&[u8]>, n: nat, m: nat)
    requires
        n <= m,
        pairing_product(pks, messages, n).is_err(),
    ensures
        pairing_product(pks, messages, m) == pairing_product(pks, messages, n),
    decreases m,
{
    if n < m {
        lemma_pairing_product_fails(pks, messages, n, (m - 1) as nat);
    }
}

/// Once the sum of keys has failed for some keys, it fails in the same way
/// for any more of them.
proof fn lemma_aggregate_key_fails(pks: Seq<BlsPublicKey>, n: nat, m: nat)
    requires
        n <= m,
        aggregate_key(pks, n).is_err(),
    ensures
        aggregate_key(pks, m) == aggregate_key(pks, n),
    decreases m,
{
    if n < m {
        lemma_aggregate_key_fails(pks, n, (m - 1) as nat);
    }
}

/// Checks an aggregate signature of one message under several keys: the
/// pairing of the signature with the generator must be, up to sign, that of
/// the message's point with the sum of the keys.
pub fn verify_aggregated_signature_single_message(
    pks: &[BlsPublicKey],
    msg: &[u8],
    aggregated_sig: &BlsSignature,
) -> (r: Result<(), BlsError>)
    requires
        forall|i: int| 0 <= i < pks@.len() ==> pks@[i].wf(),
        aggregated_sig.wf(),
    ensures
        verdict_of(r) == single_message_verdict(pks@, msg@, aggregated_sig.point()),
        r matches Err(BlsError::Other(m)) ==> m@ == "No public keys provided"@,
{
    if pks.len() == 0 {
        return Err(BlsError::Other(String::from_str("No public keys provided")));
    }
    let g = twisted();
    let mut aggregated_pk_ext: AffinePoint<PlutoBaseFieldExtension> = AffinePoint::Infinity;
    let mut i: usize = 0;
    while i < pks.len()
        invariant
            i <= pks.len(),
            forall|k: int| 0 <= k < pks@.len() ==> pks@[k].wf(),
            point_valid(aggregated_pk_ext),
            aggregate_key(pks@, i as nat) == Ok::<AffinePoint<PlutoBaseFieldExtension>, Verdict>(
                aggregated_pk_ext,
            ),
        decreases pks.len() - i,
    {
        match pks[i].validate() {
            Err(e) => {
                proof {
                    lemma_aggregate_key_fails(pks@, (i + 1) as nat, pks@.len());
                }
                return Err(e);
            },
            Ok(_) => {},
        }
        let pk_ext = canonicalize(convert_to_extended(pks[i].pk));
        aggregated_pk_ext = aggregated_pk_ext.add(pk_ext);
        i += 1;
    }
    let hash_point = match hash_to_curve(msg) {
        Err(e) => {
            return Err(e);
        },
        Ok(p) => p,
    };
    let left = pairing(aggregated_sig.sig, g);
    let right = pairing(hash_point, aggregated_pk_ext);
    compared(canonicalize_extension(left).same(canonicalize_extension(right)))
}

/// The sum of the points of the first `n` signatures, from the first on.
pub open spec fn aggregate_point(signatures: Seq<BlsSignature>, n: nat) -> AffinePoint<
    PlutoBaseFieldExtension,
>
    decreases n,
{
    if n <= 1 {
        signatures[0].point()
    } else {
        point_sum(aggregate_point(signatures, (n - 1) as nat), signatures[n - 1].point())
    }
}

impl BlsSignature {
    /// The point of the signature.
    pub closed spec fn point(&self) -> AffinePoint<PlutoBaseFieldExtension> {
        self.sig
    }

    /// Whether the coordinates of the point are reduced.
    pub open spec fn wf(&self) -> bool {
        point_valid(self.point())
    }

    /// The signature with the given point.
    pub fn from_point(sig: AffinePoint<PlutoBaseFieldExtension>) -> (r: Self)
        ensures
            r.point() == sig,
    {
        BlsSignature { sig }
    }

    /// The point of the signature.
    pub fn to_point(&self) -> (r: AffinePoint<PlutoBaseFieldExtension>)
        ensures
            r == self.point(),
    {
        self.sig
    }

    /// The aggregate of signatures on one message: the sum of their points.
    /// There is none of no signatures.
    pub fn aggregate(signatures: &[BlsSignature]) -> (r: Result<BlsSignature, BlsError>)
        requires
            forall|i: int| 0 <= i < signatures@.len() ==> signatures@[i].wf(),
        ensures
            r.is_err() == (signatures@.len() == 0),
            r matches Err(e) ==> e matches BlsError::Other(m) && m@
                == "No signatures to aggregate"@,
            r matches Ok(s) ==> s.wf() && s.point() == aggregate_point(
                signatures@,
                signatures@.len(),
            ),
    {
        if signatures.len() == 0 {
            return Err(BlsError::Other(String::from_str("No signatures to aggregate")));
        }
        let mut agg = signatures[0].sig;
        let mut i: usize = 1;
        while i < signatures.len()
            invariant
                1 <= i <= signatures.len(),
                forall|j: int| 0 <= j < signatures@.len() ==> signatures@[j].wf(),
                point_valid(agg),
                agg == aggregate_point(signatures@, i as nat),
            decreases signatures.len() - i,
        {
            agg = agg.add(signatures[i].sig);
            i += 1;
        }
        Ok(BlsSignature { sig: agg })
    }
}

impl ProofOfPossession {
    /// The signature that the proof consists of.
    pub closed spec fn signature(&self) -> BlsSignature {
        self.pop
    }

    /// The signature that the proof consists of.
    pub fn to_signature(&self) -> (r: BlsSignature)
        ensures
            r == self.signature(),
    {
        BlsSignature { sig: self.pop.sig }
    }
}

} // verus!
