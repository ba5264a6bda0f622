use ronkathon::curve::convert_to_extended;
use ronkathon::curve::generator;
use ronkathon::curve::AffinePoint;
use ronkathon::field::element::FieldElement;
use ronkathon::field::extension::PlutoBaseFieldExtension;
use ronkathon::field::prime::PlutoBaseField;
use ronkathon::pairing::line_function;
use ronkathon::pairing::miller_loop;
use ronkathon::pairing::pairing;
use ronkathon::pairing::vertical_line;
use ronkathon::signatures::bls::verify_aggregated_signature;
use ronkathon::signatures::bls::verify_aggregated_signature_single_message;
use ronkathon::signatures::bls::BlsError;
use ronkathon::signatures::bls::BlsPrivateKey;
use ronkathon::signatures::bls::BlsPublicKey;
use ronkathon::signatures::bls::BlsSignature;
use ronkathon::signatures::hash_to_curve::clear_cofactor;
use ronkathon::signatures::hash_to_curve::expand_message_xmd;
use ronkathon::signatures::hash_to_curve::hash_to_curve;
use ronkathon::signatures::hash_to_curve::hash_to_field;

type ExtPoint = AffinePoint<PlutoBaseFieldExtension>;

fn hex(octets: &[u8]) -> String {
    octets.iter().map(|b| format!("{:02x}", b)).collect()
}

fn ext(c0: usize, c1: usize) -> PlutoBaseFieldExtension {
    PlutoBaseFieldExtension::new(PlutoBaseField::new(c0), PlutoBaseField::new(c1))
}

fn point(x: (usize, usize), y: (usize, usize)) -> ExtPoint {
    AffinePoint::Point(ext(x.0, x.1), ext(y.0, y.1))
}

/// Creates a deterministic private key for testing using seed
fn create_test_private_key(seed: u64) -> BlsPrivateKey {
    BlsPrivateKey::generate_deterministic(seed)
}

/// A point of the base curve with the same coordinates in the extension field.
fn embedded(p: AffinePoint<PlutoBaseField>) -> ExtPoint {
    match p {
        AffinePoint::Point(x, y) => AffinePoint::Point(
            PlutoBaseFieldExtension::from_base(x),
            PlutoBaseFieldExtension::from_base(y),
        ),
        AffinePoint::Infinity => AffinePoint::Infinity,
    }
}

#[test]
fn test_sign_and_verify() {
    let msg = b"Hello, BLS!";
    let sk = create_test_private_key(1234);
    let pk = sk.public_key();
    let sig = sk.sign(msg).expect("Signing should succeed");
    assert!(pk.verify(msg, &sig).is_ok(), "Valid signature should verify correctly");
}

#[test]
fn test_invalid_signature() {
    let msg = b"Hello, BLS!";
    let sk = create_test_private_key(1234);
    let pk = sk.public_key();
    let tampered_sig = BlsSignature::from_point(embedded(generator()));
    assert!(pk.verify(msg, &tampered_sig).is_err(), "Tampered signature should fail verification");
}

#[test]
fn test_aggregate_signatures() {
    let msg = b"Hello, BLS!";
    let mut signatures = Vec::new();
    let mut public_keys = Vec::new();

    // Generate several keypairs with fixed seeds
    let test_seeds = [1234, 1234, 1234, 1234];
    for seed in test_seeds {
        let sk = create_test_private_key(seed);
        public_keys.push(sk.public_key());
        signatures.push(sk.sign(msg).expect("Signing should succeed"));
    }

    let aggregated_signature =
        BlsSignature::aggregate(&signatures).expect("Aggregation should succeed");

    assert!(
        verify_aggregated_signature_single_message(&public_keys, msg, &aggregated_signature)
            .is_ok(),
        "Aggregated signature should verify correctly"
    );
}

#[test]
fn test_verify_aggregated_empty_public_keys() {
    let msg = b"Aggregate with Empty Public Keys";
    let sk = create_test_private_key(1111);
    let sig = sk.sign(msg).expect("Signing should succeed");

    let res = verify_aggregated_signature_single_message(&[], &[], &sig);
    assert!(res.is_err(), "Verification with empty public key list should fail");
}

#[test]
fn seeded_keys_have_the_scalars_that_the_generator_draws() {
    // the draws of the first seeds, none of which is the seed itself
    let expected = [(1234u64, 3usize), (1111, 16), (0, 13), (1, 8), (2, 6), (3, 4)];
    for (seed, scalar) in expected {
        let key = create_test_private_key(seed).public_key().to_point();
        assert_eq!(key, generator().multiply(scalar));
    }
}

#[test]
fn message_expansion() {
    assert_eq!(expand_message_xmd(b"abc", b"QUUX-V01-CS02", 0), Vec::<u8>::new());
    assert_eq!(
        hex(&expand_message_xmd(b"abc", b"QUUX-V01-CS02", 32)),
        "a52a29623efe8d070c8a55d7e2df2383c23718dd3a8252f9043c90689ce3f5d1"
    );
    assert_eq!(
        hex(&expand_message_xmd(b"", b"QUUX-V01-CS02", 33)),
        "70371060299e81d6131d79f268e736430f619e23539005cdd7a49ea744a7cedec9"
    );
    assert_eq!(
        hex(&expand_message_xmd(b"Hello, BLS!", b"BLS_SIG_PLUTO_RONKATHON_2024", 128)),
        "9e909cd8ac13acff2ccc58fac1223fdeae802ca4b16780992b96e3665cbb5de8384f51c033711993866d8bac39596d7d5e47558b77a9ab4ad31ff1a01fac67c44205eeaa53ed75bce65e41205c1dceef76992d12d3457af6f1b67503b0fbd516558408fda7cea0898d01e26e3fe7f5442ba91a7df49b1f02cbeafdacffa5c5bc"
    );
    // the longest expansion: 255 blocks
    assert_eq!(expand_message_xmd(b"abc", &[], 8160).len(), 8160);
}

#[test]
fn messages_hash_to_field_elements() {
    assert_eq!(hash_to_field(b"Hello, BLS!", 1), vec![ext(100, 31)]);
    assert_eq!(hash_to_field(b"abc", 2), vec![ext(74, 97), ext(45, 69)]);
    assert_eq!(hash_to_field(b"abc", 0), vec![]);
    assert_eq!(hash_to_field(b"abc", 63).len(), 63);
}

#[test]
fn messages_hash_to_points_of_the_curve() {
    let cases: [(&[u8], ExtPoint); 5] = [
        (b"Hello, BLS!", point((30, 80), (0, 22))),
        (b"four", point((68, 43), (40, 12))),
        (b"abc", point((98, 37), (42, 84))),
        (b"", point((28, 29), (69, 72))),
        (b"Aggregate with Empty Public Keys", point((76, 50), (87, 47))),
    ];
    for (msg, expected) in cases {
        let p = hash_to_curve(msg).unwrap();
        assert_eq!(p, expected);
        match p {
            AffinePoint::Point(x, y) => assert_eq!(AffinePoint::new(x, y), Some(p)),
            AffinePoint::Infinity => panic!("a message's point has coordinates"),
        }
    }
    // these two are of order 17
    assert_eq!(hash_to_curve(b"Hello, BLS!").unwrap().multiply(17), AffinePoint::Infinity);
    assert_eq!(hash_to_curve(b"four").unwrap().multiply(17), AffinePoint::Infinity);
}

#[test]
fn cofactor_clearing() {
    let g = convert_to_extended(generator());
    assert_eq!(clear_cofactor(g), point((95, 16), (32, 0)));
    assert_eq!(clear_cofactor(g), g.multiply(5));
    assert_eq!(clear_cofactor(AffinePoint::Infinity), AffinePoint::Infinity);
    let h = hash_to_curve(b"Hello, BLS!").unwrap();
    assert_eq!(clear_cofactor(h), point((19, 17), (0, 66)));
}

#[test]
fn signatures_are_canonical_multiples_of_the_message_point() {
    let msg = b"Hello, BLS!";
    let sig = BlsPrivateKey::from_scalar(3).sign(msg).unwrap();
    assert_eq!(sig.to_point(), point((83, 53), (0, 31)));
    // 16 times the point is its negative, whose canonical form is the point itself
    let sig = BlsPrivateKey::from_scalar(16).sign(msg).unwrap();
    assert_eq!(sig.to_point(), point((30, 80), (0, 22)));
    let sig = BlsPrivateKey::from_scalar(5).sign(msg).unwrap();
    assert_eq!(sig.to_point(), point((19, 17), (0, 35)));
    let sig = BlsPrivateKey::from_scalar(0).sign(msg).unwrap();
    assert_eq!(sig.to_point(), AffinePoint::Infinity);
}

#[test]
fn pairing_values() {
    let g = convert_to_extended(generator());
    let h = hash_to_curve(b"Hello, BLS!").unwrap();
    assert_eq!(miller_loop(h, g, 17).0, ext(5, 22));
    assert_eq!(miller_loop(h, g, 17).1, AffinePoint::Infinity);
    assert_eq!(miller_loop(h, g, 1), (ext(1, 0), h));
    assert_eq!(pairing(h, g), ext(38, 6));
    assert_eq!(pairing(g, h), ext(38, 95));
    assert_eq!(pairing(AffinePoint::Infinity, g), ext(1, 0));
    assert_eq!(pairing(h, AffinePoint::Infinity), ext(1, 0));
    // the value is a 17th root of unity other than one
    assert_eq!(pairing(h, g).pow(17), ext(1, 0));
    assert!(pairing(h, g) != ext(1, 0));
}

#[test]
fn the_pairing_is_bilinear() {
    let g = convert_to_extended(generator());
    let h = hash_to_curve(b"Hello, BLS!").unwrap();
    let e = pairing(h, g);
    assert_eq!(pairing(h.multiply(2), g), ext(59, 52));
    assert_eq!(pairing(h, g.multiply(2)), ext(59, 52));
    for a in 1..17 {
        assert_eq!(pairing(h.multiply(a), g), e.pow(a));
        assert_eq!(pairing(h, g.multiply(a)), e.pow(a));
    }
}

#[test]
fn lines_through_points() {
    let g = convert_to_extended(generator());
    let q = hash_to_curve(b"abc").unwrap();
    let (qx, g_x) = match (q, g) {
        (AffinePoint::Point(qx, _), AffinePoint::Point(gx, _)) => (qx, gx),
        _ => panic!("both points have coordinates"),
    };
    // a point lies on every line through it
    assert_eq!(line_function(g, g.multiply(2), g), ext(0, 0));
    assert_eq!(line_function(g, g.multiply(2), g.multiply(2)), ext(0, 0));
    assert_eq!(line_function(g, g, g), ext(0, 0));
    // the line through a point and its negative is the vertical through both
    assert_eq!(line_function(g, g.multiply(16), q), qx.sub(g_x));
    assert_eq!(vertical_line(g, q), qx.sub(g_x));
    assert_eq!(line_function(g, AffinePoint::Infinity, q), qx.sub(g_x));
    assert_eq!(line_function(AffinePoint::Infinity, g, q), qx.sub(g_x));
    assert_eq!(line_function(AffinePoint::Infinity, AffinePoint::Infinity, q), ext(1, 0));
    assert_eq!(line_function(g, g, AffinePoint::Infinity), ext(1, 0));
    assert_eq!(vertical_line(AffinePoint::Infinity, q), ext(1, 0));
    assert_eq!(vertical_line(g, AffinePoint::Infinity), ext(1, 0));
}

#[test]
fn verification_goes_by_the_key() {
    let msg = b"Hello, BLS!";
    let sk = BlsPrivateKey::from_scalar(3);
    let sig = sk.sign(msg).unwrap();
    assert!(sk.public_key().verify(msg, &sig).is_ok());
    // another key, and another message
    let other = BlsPrivateKey::from_scalar(4).public_key();
    assert!(matches!(other.verify(msg, &sig), Err(BlsError::VerificationFailed)));
    assert!(matches!(
        sk.public_key().verify(b"Hello, BLS?", &sig),
        Err(BlsError::VerificationFailed)
    ));
    // a key that is no key
    let infinity = BlsPublicKey::from_point(AffinePoint::Infinity);
    assert!(matches!(infinity.verify(msg, &sig), Err(BlsError::InvalidPublicKey)));
}

#[test]
fn proofs_of_possession() {
    let sk = BlsPrivateKey::from_scalar(3);
    let pop = sk.generate_proof_of_possession().unwrap();
    assert!(pop.verify(&sk.public_key()).is_ok());
    let infinity = BlsPublicKey::from_point(AffinePoint::Infinity);
    assert!(matches!(pop.verify(&infinity), Err(BlsError::InvalidPublicKey)));
}

#[test]
fn aggregates_over_several_messages() {
    let messages: [&[u8]; 2] = [b"Hello, BLS!", b"four"];
    let keys = [BlsPrivateKey::from_scalar(3), BlsPrivateKey::from_scalar(4)];
    let signatures: Vec<BlsSignature> = keys
        .iter()
        .zip(messages.iter())
        .map(|(k, m)| BlsSignature::from_point(hash_to_curve(m).unwrap().multiply(scalar_of(k))))
        .collect();
    let pks: Vec<BlsPublicKey> = keys.iter().map(|k| k.public_key()).collect();
    let aggregate = BlsSignature::aggregate(&signatures).unwrap();
    assert!(verify_aggregated_signature(&pks, &messages, &aggregate).is_ok());
    // the messages the other way round
    let swapped: [&[u8]; 2] = [b"four", b"Hello, BLS!"];
    assert!(matches!(
        verify_aggregated_signature(&pks, &swapped, &aggregate),
        Err(BlsError::VerificationFailed)
    ));
    // lengths that do not fit
    for (p, m) in [(&pks[..], &messages[..1]), (&pks[..0], &messages[..]), (&pks[..], &messages[..0])]
    {
        match verify_aggregated_signature(p, m, &aggregate) {
            Err(BlsError::Other(message)) => assert_eq!(message, "Invalid input lengths"),
            _ => panic!("lengths that do not fit must be refused"),
        }
    }
    // a key that is no key
    let broken = vec![BlsPublicKey::from_point(AffinePoint::Infinity), keys[1].public_key()];
    assert!(matches!(
        verify_aggregated_signature(&broken, &messages, &aggregate),
        Err(BlsError::InvalidPublicKey)
    ));
}

fn scalar_of(key: &BlsPrivateKey) -> usize {
    let point = key.public_key().to_point();
    (0..17).find(|n| generator().multiply(*n) == point).unwrap()
}

#[test]
fn aggregates_over_one_message() {
    let msg = b"Hello, BLS!";
    let keys = [
        BlsPrivateKey::from_scalar(1),
        BlsPrivateKey::from_scalar(3),
        BlsPrivateKey::from_scalar(7),
    ];
    let signatures: Vec<BlsSignature> = keys.iter().map(|k| k.sign(msg).unwrap()).collect();
    let pks: Vec<BlsPublicKey> = keys.iter().map(|k| k.public_key()).collect();
    let aggregate = BlsSignature::aggregate(&signatures).unwrap();
    assert!(verify_aggregated_signature_single_message(&pks, msg, &aggregate).is_ok());
    assert!(matches!(
        verify_aggregated_signature_single_message(&pks[..2], msg, &aggregate),
        Err(BlsError::VerificationFailed)
    ));
    match verify_aggregated_signature_single_message(&[], msg, &aggregate) {
        Err(BlsError::Other(message)) => assert_eq!(message, "No public keys provided"),
        _ => panic!("no keys must be refused"),
    }
    let broken = vec![keys[0].public_key(), BlsPublicKey::from_point(AffinePoint::Infinity)];
    assert!(matches!(
        verify_aggregated_signature_single_message(&broken, msg, &aggregate),
        Err(BlsError::InvalidPublicKey)
    ));
}
