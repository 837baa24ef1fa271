use ecc_field::bignat::BigNat;
use ecc_field::ecc::{FieldElement, FieldElementOps};
use ecc_field::errors::ValueError;

fn n(v: u64) -> BigNat {
    BigNat::from_u64(v)
}

fn fe(num: u64, prime: u64) -> FieldElement {
    FieldElement::new(n(num), n(prime)).unwrap()
}

fn err(num: u64, prime: u64) -> ValueError {
    match FieldElement::new(n(num), n(prime)) {
        Ok(_) => panic!("expected an error"),
        Err(e) => e,
    }
}

/// 2^127 - 1, a Mersenne prime, as a big number.
fn m127() -> BigNat {
    let mut bytes = vec![0xffu8; 16];
    bytes[15] = 0x7f;
    BigNat { bytes }
}

#[test]
fn new_keeps_num_and_prime() {
    let e = fe(0, 13);
    assert!(e.num == n(0));
    assert!(e.prime == n(13));
    let e = fe(12, 13);
    assert!(e.num == n(12));
    assert!(e.prime == n(13));
}

#[test]
fn new_out_of_range_message() {
    assert_eq!(err(13, 13).to_string(), "num 13 not in field range 0 to 12");
    assert_eq!(err(14, 13).message, "num 14 not in field range 0 to 12");
    assert_eq!(err(100, 1).to_string(), "num 100 not in field range 0 to 0");
}

#[test]
fn new_out_of_range_large_numbers() {
    let r = FieldElement::new(m127(), m127());
    match r {
        Ok(_) => panic!("expected an error"),
        Err(e) => assert_eq!(
            e.to_string(),
            "num 170141183460469231731687303715884105727 not in field range 0 to 170141183460469231731687303715884105726"
        ),
    }
}

#[test]
fn add_and_mul_commute() {
    assert_eq!(fe(5, 13).add(fe(12, 13)), fe(12, 13).add(fe(5, 13)));
    assert_eq!(fe(5, 13).mul(fe(12, 13)), fe(12, 13).mul(fe(5, 13)));
    assert_eq!(fe(7, 31).mul(fe(30, 31)), fe(24, 31));
}

#[test]
fn sub_self_is_zero() {
    assert_eq!(fe(7, 13).sub(fe(7, 13)), fe(0, 13));
    assert_eq!(fe(0, 13).sub(fe(0, 13)), fe(0, 13));
}

#[test]
fn results_stay_in_range() {
    for x in 0..13u64 {
        for y in 0..13u64 {
            let s = fe(x, 13).add(fe(y, 13));
            let d = fe(x, 13).sub(fe(y, 13));
            let m = fe(x, 13).mul(fe(y, 13));
            assert_eq!(s, fe((x + y) % 13, 13));
            assert_eq!(d, fe((x + 13 - y) % 13, 13));
            assert_eq!(m, fe((x * y) % 13, 13));
            if y > 0 {
                assert_eq!(fe(x, 13).div(fe(y, 13)), fe((x / y) % 13, 13));
            }
        }
    }
}

#[test]
fn neg_of_zero_is_the_modulus() {
    let z = fe(0, 13).neg();
    assert!(z.num == n(13));
    assert!(z.prime == n(13));
}

#[test]
fn neg_of_nonzero() {
    assert_eq!(fe(5, 13).neg(), fe(8, 13));
    assert_eq!(fe(12, 13).neg(), fe(1, 13));
}

#[test]
fn div_is_floor_quotient() {
    assert_eq!(fe(12, 13).div(fe(5, 13)), fe(2, 13));
    assert_eq!(fe(10, 13).div(fe(3, 13)), fe(3, 13));
}

#[test]
fn pow_edges() {
    assert_eq!(fe(7, 13).pow(0), fe(1, 13));
    assert_eq!(fe(0, 13).pow(0), fe(1, 13));
    assert_eq!(fe(3, 13).pow(-1), fe(9, 13));
    assert_eq!(fe(2, 13).pow(1), fe(2, 13));
}

#[test]
fn large_modulus_arithmetic() {
    let p = m127();
    let mut top_bytes = p.bytes.clone();
    top_bytes[0] = 0xfe;
    let top = BigNat { bytes: top_bytes };
    let a = FieldElement::new(top.clone(), p.clone()).unwrap();
    let b = FieldElement::new(top.clone(), p.clone()).unwrap();
    // (p - 1) + (p - 1) = p - 2 (mod p)
    let mut want = p.bytes.clone();
    want[0] = 0xfd;
    assert!(a.clone().add(b.clone()).num == BigNat { bytes: want });
    // (p - 1) * (p - 1) = 1 (mod p)
    assert!(a.clone().mul(b).num == n(1));
    // (p - 1)^2 = 1, so (p - 1)^(1 + 1) = 1
    assert!(a.clone().pow(-1).num == n(1));
    // 0 - (p - 1) = 1
    let zero = FieldElement::new(n(0), p.clone()).unwrap();
    assert!(zero.sub(a).num == n(1));
}

#[test]
fn big_nat_from_u64_and_equality() {
    assert!(n(0).bytes.is_empty());
    assert_eq!(n(256).bytes, vec![0u8, 1]);
    assert_eq!(n(u64::MAX).bytes, vec![0xffu8; 8]);
    assert!(n(5) == BigNat { bytes: vec![5, 0, 0] });
    assert!(n(5) != n(6));
    assert!(fe(3, 13) != fe(3, 31));
}
