use std::cmp::Ordering;

use ronkathon::curve::convert_to_extended;
use ronkathon::curve::generator;
use ronkathon::curve::AffinePoint;
use ronkathon::field::element::FieldElement;
use ronkathon::field::extension::PlutoBaseFieldExtension;
use ronkathon::field::prime::PlutoBaseField;
use ronkathon::field::prime::PlutoScalarField;
use ronkathon::field::prime::PrimeField;
use ronkathon::signatures::bls::canonicalize;
use ronkathon::signatures::bls::canonicalize_extension;
use ronkathon::signatures::bls::lex_cmp_extension;
use ronkathon::signatures::bls::sqrt_canonical;
use ronkathon::signatures::bls::BlsError;
use ronkathon::signatures::bls::BlsPrivateKey;
use ronkathon::signatures::bls::BlsPublicKey;
use ronkathon::signatures::bls::BlsSignature;

fn base(value: usize) -> PlutoBaseField {
    PlutoBaseField::new(value)
}

fn ext(c0: usize, c1: usize) -> PlutoBaseFieldExtension {
    PlutoBaseFieldExtension::new(base(c0), base(c1))
}

#[test]
fn prime_field_arithmetic() {
    assert_eq!(PlutoBaseField::order(), 101);
    assert_eq!(PlutoScalarField::order(), 17);
    assert_eq!(base(205).value, 3);
    assert_eq!(base(100).add(base(5)).value, 4);
    assert_eq!(base(3).sub(base(5)).value, 99);
    assert_eq!(base(0).neg().value, 0);
    assert_eq!(base(1).neg().value, 100);
    assert_eq!(base(50).mul(base(4)).value, 99);
    assert_eq!(base(2).inverse().unwrap().value, 51);
    assert_eq!(base(1).inverse().unwrap().value, 1);
    assert!(base(0).inverse().is_none());
    assert_eq!(base(7).div(base(2)).value, 54);
    assert_eq!(base(7).div(base(0)).value, 0);
    assert!(base(5).same(base(106)));
    assert!(!base(5).same(base(6)));
    assert_eq!(PlutoBaseField::small(3).value, 3);
    assert_eq!(PrimeField::<2>::small(3).value, 1);
    // a modulus that is no prime: 2 has no inverse modulo 4
    assert!(PrimeField::<4>::new(2).inverse().is_none());
    assert_eq!(PrimeField::<4>::new(3).inverse().unwrap().value, 3);
    for a in 1..101 {
        let inv = base(a).inverse().unwrap();
        assert_eq!(base(a).mul(inv).value, 1);
    }
}

#[test]
fn extension_field_arithmetic() {
    assert_eq!(ext(3, 4).mul(ext(5, 6)), ext(68, 38));
    assert_eq!(ext(3, 4).inverse(), ext(5, 27));
    assert_eq!(ext(3, 4).mul(ext(3, 4).inverse()), ext(1, 0));
    assert_eq!(ext(3, 4).div(ext(3, 4)), PlutoBaseFieldExtension::one());
    assert_eq!(ext(3, 4).add(ext(100, 100)), ext(2, 3));
    assert_eq!(ext(3, 4).sub(ext(5, 6)), ext(99, 99));
    assert_eq!(ext(3, 4).neg(), ext(98, 97));
    assert_eq!(ext(0, 1).mul(ext(0, 1)), ext(99, 0));
    assert_eq!(ext(0, 0).inverse(), ext(0, 0));
    assert_eq!(PlutoBaseFieldExtension::from_base(base(9)), ext(9, 0));
    assert_eq!(PlutoBaseFieldExtension::small(3), ext(3, 0));
    assert!(ext(3, 4).same(ext(3, 4)));
    assert!(!ext(3, 4).same(ext(3, 5)));
    let w = PlutoBaseFieldExtension::cube_root_of_unity();
    assert_eq!(w, ext(50, 35));
    assert_eq!(w.mul(w).mul(w), ext(1, 0));
    assert!(w != ext(1, 0));
}

#[test]
fn lexicographic_order_of_the_extension() {
    assert_eq!(lex_cmp_extension(&ext(1, 5), &ext(2, 0)), Ordering::Less);
    assert_eq!(lex_cmp_extension(&ext(2, 0), &ext(1, 5)), Ordering::Greater);
    assert_eq!(lex_cmp_extension(&ext(2, 3), &ext(2, 4)), Ordering::Less);
    assert_eq!(lex_cmp_extension(&ext(2, 4), &ext(2, 3)), Ordering::Greater);
    assert_eq!(lex_cmp_extension(&ext(2, 3), &ext(2, 3)), Ordering::Equal);
}

#[test]
fn canonical_form_is_the_smaller_of_an_element_and_its_negation() {
    assert_eq!(canonicalize_extension(ext(1, 0)), ext(1, 0));
    assert_eq!(canonicalize_extension(ext(100, 0)), ext(1, 0));
    assert_eq!(canonicalize_extension(ext(60, 3)), ext(41, 98));
    assert_eq!(canonicalize_extension(ext(41, 98)), ext(41, 98));
    assert_eq!(canonicalize_extension(ext(0, 70)), ext(0, 31));
    assert_eq!(canonicalize_extension(ext(0, 31)), ext(0, 31));
    assert_eq!(canonicalize_extension(ext(0, 0)), ext(0, 0));
    assert_eq!(
        canonicalize(AffinePoint::Point(ext(7, 8), ext(60, 3))),
        AffinePoint::Point(ext(7, 8), ext(41, 98))
    );
    assert_eq!(
        canonicalize(AffinePoint::<PlutoBaseFieldExtension>::Infinity),
        AffinePoint::Infinity
    );
}

#[test]
fn canonical_square_roots() {
    assert_eq!(sqrt_canonical(&ext(4, 0)), Some(ext(2, 0)));
    assert_eq!(sqrt_canonical(&ext(3, 0)), Some(ext(0, 7)));
    assert_eq!(sqrt_canonical(&ext(2, 0)), Some(ext(0, 10)));
    assert_eq!(sqrt_canonical(&ext(5, 7)), Some(ext(4, 64)));
    assert_eq!(sqrt_canonical(&ext(99, 0)), Some(ext(0, 1)));
    assert_eq!(sqrt_canonical(&ext(0, 0)), Some(ext(0, 0)));
    assert_eq!(sqrt_canonical(&ext(1, 0)), Some(ext(1, 0)));
    assert_eq!(sqrt_canonical(&ext(0, 1)), None);
    assert_eq!(sqrt_canonical(&ext(1, 1)), None);
    // the root found is the one that does not come after its negation
    let root = sqrt_canonical(&ext(5, 7)).unwrap();
    assert!(lex_cmp_extension(&root, &root.neg()) != Ordering::Greater);
    assert_eq!(root.mul(root), ext(5, 7));
}

#[test]
fn points_of_the_base_curve() {
    let g = generator();
    assert_eq!(g, AffinePoint::Point(base(1), base(2)));
    assert_eq!(AffinePoint::new(base(1), base(2)), Some(g));
    assert_eq!(AffinePoint::new(base(1), base(3)), None);
    assert_eq!(g.add(g), AffinePoint::Point(base(68), base(74)));
    assert_eq!(g.multiply(0), AffinePoint::Infinity);
    assert_eq!(g.multiply(1), g);
    assert_eq!(g.multiply(2), AffinePoint::Point(base(68), base(74)));
    assert_eq!(g.multiply(3), AffinePoint::Point(base(26), base(45)));
    assert_eq!(g.multiply(5), AffinePoint::Point(base(12), base(32)));
    assert_eq!(g.multiply(16), AffinePoint::Point(base(1), base(99)));
    assert_eq!(g.multiply(17), AffinePoint::Infinity);
    assert_eq!(g.multiply(18), g);
    assert_eq!(g.add(AffinePoint::Infinity), g);
    assert_eq!(AffinePoint::Infinity.add(g), g);
    assert_eq!(g.add(g.multiply(16)), AffinePoint::Infinity);
    assert!(g.same(g));
    assert!(!g.same(g.add(g)));
    assert!(!g.is_infinity());
    assert!(g.multiply(17).is_infinity());
}

#[test]
fn points_of_the_extended_curve() {
    let g = convert_to_extended(generator());
    assert_eq!(g, AffinePoint::Point(ext(50, 35), ext(2, 0)));
    assert_eq!(AffinePoint::new(ext(50, 35), ext(2, 0)), Some(g));
    assert_eq!(g.multiply(2), AffinePoint::Point(ext(67, 57), ext(74, 0)));
    assert_eq!(g.multiply(3), AffinePoint::Point(ext(88, 1), ext(45, 0)));
    assert_eq!(g.multiply(17), AffinePoint::Infinity);
    assert_eq!(
        convert_to_extended(AffinePoint::<PlutoBaseField>::Infinity),
        AffinePoint::Infinity
    );
    // taking a point up and multiplying commute
    assert_eq!(convert_to_extended(generator().multiply(5)), g.multiply(5));
}

#[test]
fn public_keys() {
    let sk = BlsPrivateKey::from_scalar(5);
    let pk = sk.public_key();
    assert_eq!(pk.to_point(), AffinePoint::Point(base(12), base(32)));
    assert!(pk.validate().is_ok());
    // the scalar is reduced: 17 is 0, and 22 is 5
    assert_eq!(BlsPrivateKey::from_scalar(22).public_key().to_point(), pk.to_point());
    let null = BlsPrivateKey::from_scalar(17).public_key();
    assert_eq!(null.to_point(), AffinePoint::Infinity);
    assert!(matches!(null.validate(), Err(BlsError::InvalidPublicKey)));
    let infinity = BlsPublicKey::from_point(AffinePoint::Infinity);
    assert!(matches!(infinity.validate(), Err(BlsError::InvalidPublicKey)));
}

#[test]
fn seeded_keys_are_reproducible() {
    let a = BlsPrivateKey::generate_deterministic(1234);
    let b = BlsPrivateKey::generate_deterministic(1234);
    assert_eq!(a.public_key().to_point(), b.public_key().to_point());
    // the key is one of the multiples of the generator
    let point = a.public_key().to_point();
    assert!((0..17).any(|n| generator().multiply(n) == point));
    // different seeds do not all give the same key, and none gives its seed back
    let points: Vec<_> =
        (0..40u64).map(|s| BlsPrivateKey::generate_deterministic(s).public_key().to_point()).collect();
    assert!(points.iter().any(|p| *p != points[0]));
    assert!((0..40usize).any(|s| points[s] != generator().multiply(s % 17)));
}

#[test]
fn proof_of_possession_is_the_extended_key_times_the_scalar() {
    let sk = BlsPrivateKey::from_scalar(3);
    let pop = sk.generate_proof_of_possession().unwrap();
    let expected = convert_to_extended(generator().multiply(3)).multiply(3);
    assert_eq!(pop.to_signature().to_point(), expected);
    assert_eq!(expected, convert_to_extended(generator()).multiply(9));
}

#[test]
fn aggregation_sums_the_points() {
    let g = convert_to_extended(generator());
    let sigs = vec![
        BlsSignature::from_point(g),
        BlsSignature::from_point(g.multiply(2)),
        BlsSignature::from_point(g.multiply(4)),
    ];
    assert_eq!(BlsSignature::aggregate(&sigs).unwrap().to_point(), g.multiply(7));
    assert_eq!(BlsSignature::aggregate(&sigs[..1]).unwrap().to_point(), g);
    match BlsSignature::aggregate(&[]) {
        Err(BlsError::Other(message)) => assert_eq!(message, "No signatures to aggregate"),
        _ => panic!("an empty aggregate must be refused"),
    }
}
