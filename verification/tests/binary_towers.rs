use rand::thread_rng;
use rand::Rng;
use ronkathon::field::binary_field::BinaryField;
use ronkathon::field::binary_towers::from_bool_vec;
use ronkathon::field::binary_towers::num_digits;
use ronkathon::field::binary_towers::BinaryTowers;
use ronkathon::field::element::FieldElement;
use ronkathon::field::prime::PrimeField;

type TestBinaryField = PrimeField<2>;

fn random_element<const K: usize>() -> BinaryTowers<K> {
    let mut rng = thread_rng();
    BinaryTowers::<K>::from_integer(rng.gen::<u64>())
}

fn check_binary_field_arithmetic(a: usize, b: usize) {
    let arg1 = BinaryField::from_integer(a as u64);
    let arg2 = BinaryField::from_integer(b as u64);
    let a_test = TestBinaryField::new(a);
    let b_test = TestBinaryField::new(b);

    assert_eq!(arg1.add(arg2), BinaryField::from_integer(a_test.add(b_test).value as u64));
    assert_eq!(arg1.sub(arg2), arg1.add(arg2));
    assert_eq!(arg1.mul(arg2), BinaryField::from_integer(a_test.mul(b_test).value as u64));

    let inv_res = arg2.inverse();
    assert!(inv_res.is_some());
    assert_eq!(inv_res.unwrap(), arg2);

    assert_eq!(
        arg1.div(arg2).unwrap(),
        BinaryField::from_integer(a_test.div(b_test).value as u64)
    );
}

#[test]
fn binary_field_arithmetic_0_1() {
    check_binary_field_arithmetic(0, 1);
}

#[test]
fn binary_field_arithmetic_1_1() {
    check_binary_field_arithmetic(1, 1);
}

#[test]
fn binary_field_arithmetic_1_0_has_no_quotient() {
    let arg1 = BinaryField::from_integer(1);
    let arg2 = BinaryField::from_integer(0);
    assert_eq!(arg1.add(arg2), BinaryField::One);
    assert_eq!(arg1.mul(arg2), BinaryField::Zero);
    assert!(arg2.inverse().is_none());
    assert!(arg1.div(arg2).is_none());
}

#[test]
fn num_digit_4() {
    assert_eq!(num_digits(4), 3);
}

#[test]
fn num_digit_9() {
    assert_eq!(num_digits(9), 4);
}

#[test]
fn num_digit_33() {
    assert_eq!(num_digits(33), 6);
}

#[test]
fn num_digit_67() {
    assert_eq!(num_digits(67), 7);
}

#[test]
fn num_digits_of_zero_one_and_the_largest() {
    assert_eq!(num_digits(0), 1);
    assert_eq!(num_digits(1), 1);
    assert_eq!(num_digits(2), 2);
    assert_eq!(num_digits(u64::MAX), 64);
    assert_eq!(num_digits(1 << 63), 64);
}

#[test]
fn add_sub_neg() {
    let a = random_element::<3>();
    let b = random_element::<3>();

    assert_eq!(a.add(&a), BinaryTowers::<3>::zero());
    assert_eq!(a.add(&a), b.add(&b));
    assert_eq!(a.add(&b), b.add(&a));
    assert_eq!(a.add(&b), a.sub(&b));
    assert_eq!(a, a.neg());
    assert_eq!(a.add(&b.neg()), a.neg().add(&b));
}

fn check_mul_div(a: u64, b: u64, res: u64) {
    let a = BinaryTowers::<3>::from_integer(a);
    let b = BinaryTowers::<3>::from_integer(b);
    let res = BinaryTowers::<3>::from_integer(res);

    let c = a.mul(&b);
    assert_eq!(a.mul(&b), res);
    assert_eq!(b.mul(&a), res);

    let d = a.div(&b).unwrap();
    assert_eq!(d.mul(&c), a.pow(2));

    let e = BinaryTowers::<3>::one().div(&a.mul(&b)).unwrap();
    assert_eq!(a.mul(&b).mul(&e), BinaryTowers::<3>::one());
}

#[test]
fn mul_div_160_23() {
    check_mul_div(160, 23, 90);
}

#[test]
fn mul_div_217_20() {
    check_mul_div(217, 20, 151);
}

#[test]
fn mul_div_19_230() {
    check_mul_div(19, 230, 3);
}

#[test]
fn mul_div_203_187() {
    check_mul_div(203, 187, 4);
}

#[test]
fn mul_div_145_38() {
    check_mul_div(145, 38, 152);
}

#[test]
fn mul_div_209_155() {
    check_mul_div(209, 155, 71);
}

#[test]
fn small_by_large_mul() {
    let mut rng = thread_rng();
    for _ in 0..100 {
        let a = random_element::<5>();

        let val: u64 = rng.gen_range(0..1 << (1 << 3));

        let b = BinaryTowers::<3>::from_integer(val);
        let d = BinaryTowers::<5>::from_integer(val);

        let small_by_large_res = a.mul_tower(&b);
        let res = from_bool_vec(small_by_large_res.coefficients());

        let mul_res = a.mul(&d);
        let res_2 = from_bool_vec(mul_res.coefficients());

        assert_eq!(res, res_2);

        // the receiver comes back where the other operand's field is the larger
        assert_eq!(b, b.mul_tower(&a));
    }
}

#[test]
fn efficient_embedding() {
    let a = random_element::<4>();

    let (a1, a2) = a.split::<3>();

    let b = BinaryTowers::<4>::join(&a1, &a2);

    assert_eq!(a, b);
}

#[test]
fn product_with_a_smaller_field_goes_by_value() {
    // the same value from two smaller fields gives the same product
    let a = BinaryTowers::<5>::from_integer(0xdead_beef);
    for val in [0u64, 1, 2, 3, 7, 9, 15] {
        let from_height_2 = BinaryTowers::<2>::from_integer(val);
        let from_height_3 = BinaryTowers::<3>::from_integer(val);
        let in_place = BinaryTowers::<5>::from_integer(val);
        assert_eq!(a.mul_tower(&from_height_2), a.mul_tower(&from_height_3));
        assert_eq!(a.mul_tower(&from_height_2), a.mul(&in_place));
    }
    // same height: the ordinary product
    let c = BinaryTowers::<5>::from_integer(0x1234_5678);
    assert_eq!(a.mul_tower(&c), a.mul(&c));
}

#[test]
fn constants_have_the_expected_coefficients() {
    let zero = BinaryTowers::<2>::zero();
    let one = BinaryTowers::<2>::one();
    assert_eq!(
        zero.coefficients(),
        vec![BinaryField::Zero, BinaryField::Zero, BinaryField::Zero, BinaryField::Zero]
    );
    assert_eq!(
        one.coefficients(),
        vec![BinaryField::One, BinaryField::Zero, BinaryField::Zero, BinaryField::Zero]
    );
    assert_eq!(zero.to_integer(), 0);
    assert_eq!(one.to_integer(), 1);
    assert!(zero.is_zero());
    assert!(!one.is_zero());
    assert!(one.equals(&BinaryTowers::<2>::from_integer(1)));
    assert!(!one.equals(&zero));
    // height 0 is the two-element field
    assert_eq!(BinaryTowers::<0>::one().coefficients(), vec![BinaryField::One]);
    assert_eq!(BinaryTowers::<0>::zero().coefficients(), vec![BinaryField::Zero]);
}

#[test]
fn integer_round_trips() {
    for n in 0..256u64 {
        let a = BinaryTowers::<3>::from_integer(n);
        assert_eq!(a.to_integer(), n);
        assert_eq!(BinaryTowers::<3>::from_integer(a.to_integer()), a);
    }
    // digits beyond the field's width are dropped
    assert_eq!(BinaryTowers::<3>::from_integer(0x1ff).to_integer(), 0xff);
    assert_eq!(BinaryTowers::<3>::from_integer(256), BinaryTowers::<3>::zero());
    assert_eq!(BinaryTowers::<2>::from_integer(0xabcd).to_integer(), 0xd);
    assert_eq!(BinaryTowers::<0>::from_integer(3).to_integer(), 1);
    assert_eq!(BinaryTowers::<6>::from_integer(u64::MAX).to_integer(), u64::MAX);
    // a field wider than the integer: the upper coefficients are zero
    let wide = BinaryTowers::<7>::from_integer(u64::MAX);
    let coefficients = wide.coefficients();
    assert_eq!(coefficients.len(), 128);
    assert!(coefficients[..64].iter().all(|c| *c == BinaryField::One));
    assert!(coefficients[64..].iter().all(|c| *c == BinaryField::Zero));
}

#[test]
fn bits_come_highest_first() {
    let a = BinaryTowers::<2>::from_integer(0b0011);
    assert_eq!(
        a.coefficients(),
        vec![BinaryField::One, BinaryField::One, BinaryField::Zero, BinaryField::Zero]
    );
    assert_eq!(
        a.to_bits(),
        vec![BinaryField::Zero, BinaryField::Zero, BinaryField::One, BinaryField::One]
    );
    let back = BinaryTowers::<2>::from_bits(&a.to_bits()).unwrap();
    assert_eq!(back, a);
    assert!(BinaryTowers::<2>::from_bits(&[BinaryField::One]).is_none());
    assert!(BinaryTowers::<2>::from_bits(&[]).is_none());
    assert_eq!(from_bool_vec(a.coefficients()), 3);
    assert_eq!(from_bool_vec(vec![]), 0);
    assert_eq!(from_bool_vec(vec![BinaryField::Zero, BinaryField::One]), 2);
}

#[test]
fn split_and_join_are_inverse() {
    let a = BinaryTowers::<3>::from_integer(0b1010_0110);
    let (low, high) = a.split::<2>();
    assert_eq!(low.to_integer(), 0b0110);
    assert_eq!(high.to_integer(), 0b1010);
    assert_eq!(BinaryTowers::<3>::join(&low, &high), a);
    let (low_again, high_again) = BinaryTowers::<3>::join(&low, &high).split::<2>();
    assert_eq!(low_again, low);
    assert_eq!(high_again, high);
    // height 1 splits into two bits
    let b = BinaryTowers::<1>::from_integer(2);
    let (b0, b1) = b.split::<0>();
    assert_eq!(b0.to_integer(), 0);
    assert_eq!(b1.to_integer(), 1);
}

#[test]
fn multiplication_laws_hold_at_height_two() {
    let zero = BinaryTowers::<2>::zero();
    let one = BinaryTowers::<2>::one();
    for x in 0..16u64 {
        let a = BinaryTowers::<2>::from_integer(x);
        assert_eq!(a.mul(&one), a);
        assert_eq!(one.mul(&a), a);
        assert_eq!(a.mul(&zero), zero);
        for y in 0..16u64 {
            let b = BinaryTowers::<2>::from_integer(y);
            assert_eq!(a.mul(&b), b.mul(&a));
            for z in 0..16u64 {
                let c = BinaryTowers::<2>::from_integer(z);
                assert_eq!(a.mul(&b).mul(&c), a.mul(&b.mul(&c)));
                assert_eq!(a.mul(&b.add(&c)), a.mul(&b).add(&a.mul(&c)));
            }
        }
    }
}

#[test]
fn the_generator_satisfies_its_equation() {
    // height 1: X * X = X + 1, with X = 2
    let x = BinaryTowers::<1>::from_integer(2);
    assert_eq!(x.mul(&x).to_integer(), 3);
    // height 2: X * X = X * T + 1, with X = 4 and T = 2
    let x = BinaryTowers::<2>::from_integer(4);
    let t = BinaryTowers::<2>::from_integer(2);
    assert_eq!(x.mul(&x), x.mul(&t).add(&BinaryTowers::<2>::one()));
    assert_eq!(x.mul(&x).to_integer(), 9);
    // height 3: X = 16 and T = 4
    let x = BinaryTowers::<3>::from_integer(16);
    let t = BinaryTowers::<3>::from_integer(4);
    assert_eq!(x.mul(&x), x.mul(&t).add(&BinaryTowers::<3>::one()));
}

#[test]
fn powers_by_squaring() {
    let a = BinaryTowers::<3>::from_integer(160);
    assert_eq!(a.pow(0), BinaryTowers::<3>::one());
    assert_eq!(a.pow(1), a);
    assert_eq!(a.pow(2), a.mul(&a));
    assert_eq!(a.pow(5), a.mul(&a).mul(&a).mul(&a).mul(&a));
    assert_eq!(a.pow(255), BinaryTowers::<3>::one());
    assert_eq!(a.pow(256), a);
    assert_eq!(BinaryTowers::<3>::zero().pow(0), BinaryTowers::<3>::one());
    assert_eq!(BinaryTowers::<3>::zero().pow(3), BinaryTowers::<3>::zero());
}

#[test]
fn every_element_but_zero_has_an_inverse() {
    let one = BinaryTowers::<3>::one();
    for x in 1..256u64 {
        let a = BinaryTowers::<3>::from_integer(x);
        let inv = a.inverse().unwrap();
        assert_eq!(a.mul(&inv), one);
        assert_eq!(inv, a.pow(254));
        assert_eq!(one.div(&a).unwrap(), inv);
        assert_eq!(a.rem(&one).unwrap(), BinaryTowers::<3>::zero());
    }
    let b = BinaryTowers::<5>::from_integer(0x8000_0001);
    assert_eq!(b.mul(&b.inverse().unwrap()), BinaryTowers::<5>::one());
    let c = BinaryTowers::<6>::from_integer(0x0123_4567_89ab_cdef);
    assert_eq!(c.mul(&c.inverse().unwrap()), BinaryTowers::<6>::one());
}

#[test]
fn zero_has_no_inverse_at_any_height() {
    assert!(BinaryField::Zero.inverse().is_none());
    assert!(BinaryTowers::<0>::zero().inverse().is_none());
    assert!(BinaryTowers::<1>::zero().inverse().is_none());
    assert!(BinaryTowers::<3>::zero().inverse().is_none());
    assert!(BinaryTowers::<5>::zero().inverse().is_none());
    let a = BinaryTowers::<3>::from_integer(7);
    assert!(a.div(&BinaryTowers::<3>::zero()).is_none());
    assert!(a.rem(&BinaryTowers::<3>::zero()).is_none());
    assert_eq!(BinaryTowers::<0>::one().inverse().unwrap(), BinaryTowers::<0>::one());
}

#[test]
fn division_undoes_multiplication() {
    for (x, y) in [(160u64, 23u64), (1, 255), (77, 1), (200, 200), (0, 9)] {
        let a = BinaryTowers::<3>::from_integer(x);
        let b = BinaryTowers::<3>::from_integer(y);
        let q = a.div(&b).unwrap();
        assert_eq!(q.mul(&b), a);
        assert_eq!(a.rem(&b).unwrap(), BinaryTowers::<3>::zero());
    }
}

#[test]
fn base_field_operations() {
    let zero = BinaryField::Zero;
    let one = BinaryField::One;
    assert_eq!(BinaryField::ZERO, zero);
    assert_eq!(BinaryField::ONE, one);
    assert_eq!(BinaryField::new(0), zero);
    assert_eq!(BinaryField::new(1), one);
    assert_eq!(BinaryField::new(2), zero);
    assert_eq!(BinaryField::from_integer(7), one);
    assert_eq!(BinaryField::from_bool(true), one);
    assert_eq!(one.to_integer(), 1);
    assert_eq!(zero.to_integer(), 0);
    assert_eq!(one.add(one), zero);
    assert_eq!(one.add(zero), one);
    assert_eq!(one.mul(one), one);
    assert_eq!(one.mul(zero), zero);
    assert_eq!(one.neg(), one);
    assert_eq!(zero.neg(), zero);
    assert_eq!(zero.pow(0), one);
    assert_eq!(zero.pow(5), zero);
    assert_eq!(one.pow(5), one);
    assert!(one.is_one());
    assert_eq!(one.inverse(), Some(one));
}
