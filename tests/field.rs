use halo2curves::bn256::Fr;
use wallet_circuit::field::Fe;

fn modulus_minus_one() -> [u8; 32] {
    (Fr::zero() - Fr::one()).to_bytes()
}

#[test]
fn arithmetic_small_values() {
    let two = Fe::from_u64(2);
    let three = Fe::from_u64(3);
    assert_eq!(two.add(&three), Fe::from_u64(5));
    assert_eq!(two.mul(&three), Fe::from_u64(6));
    assert_eq!(three.sub(&two), Fe::from_u64(1));
    assert_eq!(two.sub(&two), Fe::zero());
    assert!(two.sub(&two).is_zero());
    assert!(!two.is_zero());
}

#[test]
fn negation_wraps_around_modulus() {
    let minus_one = Fe::one().neg();
    let mut expected = [0u8; 32];
    let hex_be = "30644e72e131a029b85045b68181585d2833e84879b9709143e1f593f0000000";
    for i in 0..32 {
        expected[31 - i] = u8::from_str_radix(&hex_be[2 * i..2 * i + 2], 16).unwrap();
    }
    assert_eq!(minus_one.to_bytes(), expected);
    assert_eq!(modulus_minus_one(), expected);
    assert_eq!(Fe::zero().sub(&Fe::one()), minus_one);
    assert_eq!(minus_one.add(&Fe::one()), Fe::zero());
    assert_eq!(minus_one.mul(&minus_one), Fe::one());
}

#[test]
fn canonical_bytes_only() {
    let mut modulus = modulus_minus_one();
    assert!(Fe::from_bytes(modulus).is_some());
    modulus[0] = 0x01;
    assert!(Fe::from_bytes(modulus).is_none());
    assert!(Fe::from_bytes([0xff; 32]).is_none());
    let mut seven = [0u8; 32];
    seven[0] = 7;
    assert_eq!(Fe::from_bytes(seven), Some(Fe::from_u64(7)));
}

#[test]
fn equality_is_bitwise() {
    assert!(Fe::from_u64(9).equals(&Fe::from_u64(9)));
    assert!(!Fe::from_u64(9).equals(&Fe::from_u64(10)));
}
