use chaum_pedersen::bignum::BigNum;
use num_bigint::BigUint;

fn num(v: u64) -> BigNum {
    BigNum::from_u64(v)
}

fn value(b: &BigNum) -> BigUint {
    BigUint::from_bytes_be(&b.to_bytes_be())
}

#[test]
fn from_u64_and_bytes_agree() {
    assert_eq!(value(&num(0)), BigUint::from(0u32));
    assert_eq!(value(&num(258)), BigUint::from(258u32));
    assert_eq!(value(&num(u64::MAX)), BigUint::from(u64::MAX));
    let b = BigNum::from_bytes_be(vec![0, 0, 1, 2]);
    assert!(b.same_value(&num(258)));
    assert!(BigNum::from_bytes_be(vec![]).same_value(&num(0)));
}

#[test]
fn arithmetic_is_exact() {
    let a = num(1_000_000_007);
    let b = num(998_244_353);
    assert_eq!(value(&a.add(&b)), BigUint::from(1_998_244_360u64));
    assert_eq!(value(&a.sub(&b)), BigUint::from(1_755_654u64));
    assert_eq!(value(&a.sub(&a)), BigUint::from(0u32));
    assert_eq!(value(&a.mul(&b)), BigUint::from(1_000_000_007u64) * BigUint::from(998_244_353u64));
    assert_eq!(value(&a.rem(&num(1000))), BigUint::from(7u32));
    assert_eq!(value(&num(5).rem(&num(9))), BigUint::from(5u32));
}

#[test]
fn modpow_is_exact() {
    assert_eq!(value(&num(4).modpow(&num(3), &num(23))), BigUint::from(18u32));
    assert_eq!(value(&num(2).modpow(&num(10), &num(1000))), BigUint::from(24u32));
    assert_eq!(value(&num(7).modpow(&num(0), &num(13))), BigUint::from(1u32));
    assert_eq!(value(&num(30).modpow(&num(1), &num(23))), BigUint::from(7u32));
}

#[test]
fn comparisons_follow_values() {
    assert!(num(3).less_than(&num(4)));
    assert!(!num(4).less_than(&num(4)));
    assert!(!num(5).less_than(&num(4)));
    assert!(num(9).same_value(&BigNum::from_bytes_be(vec![0, 9])));
    assert!(!num(9).same_value(&num(10)));
    assert!(num(9).copy_value().same_value(&num(9)));
}
