//! Arbitrary-precision natural numbers, held as big-endian bytes.
//!
//! The arithmetic is done by `num_bigint::BigUint`; every operation used by
//! the protocol is a small wrapper whose contract states its result exactly.
use num_bigint::{BigUint, RandBigInt};
use rand::rngs::ThreadRng;
use vstd::arithmetic::power::pow;
use vstd::prelude::*;

verus! {

/// The value of a big-endian byte string.
pub open spec fn be_value(b: Seq<u8>) -> nat
    decreases b.len(),
{
    if b.len() == 0 {
        0
    } else {
        be_value(b.drop_last()) * 256 + b.last() as nat
    }
}

/// A natural number of any size. Leading zero bytes are allowed and do not
/// change the value.
#[derive(Debug)]
pub struct BigNum {
    bytes: Vec<u8>,
}

impl View for BigNum {
    type V = nat;

    closed spec fn view(&self) -> nat {
        be_value(self.bytes@)
    }
}

impl BigNum {
    /// The number whose big-endian bytes are `bytes`.
    pub fn from_bytes_be(bytes: Vec<u8>) -> (r: BigNum)
        ensures
            r@ == be_value(bytes@),
    {
        BigNum { bytes }
    }

    /// The big-endian bytes of this number.
    pub fn to_bytes_be(&self) -> (r: Vec<u8>)
        ensures
            be_value(r@) == self@,
    {
        self.bytes.clone()
    }

    /// The number `v`.
    pub fn from_u64(v: u64) -> (r: BigNum)
        ensures
            r@ == v,
    {
        BigNum { bytes: u64_bytes(v) }
    }

    /// A second number with the same value.
    pub fn copy_value(&self) -> (r: BigNum)
        ensures
            r@ == self@,
    {
        BigNum { bytes: self.bytes.clone() }
    }

    /// `(self ^ exponent) % modulus`.
    pub fn modpow(&self, exponent: &BigNum, modulus: &BigNum) -> (r: BigNum)
        requires
            modulus@ > 1,
        ensures
            r@ == pow(self@ as int, exponent@) % (modulus@ as int),
            r@ < modulus@,
    {
        BigNum { bytes: modpow_bytes(&self.bytes, &exponent.bytes, &modulus.bytes) }
    }

    /// `self + other`.
    pub fn add(&self, other: &BigNum) -> (r: BigNum)
        ensures
            r@ == self@ + other@,
    {
        BigNum { bytes: add_bytes(&self.bytes, &other.bytes) }
    }

    /// `self - other`, defined when `other` is not larger.
    pub fn sub(&self, other: &BigNum) -> (r: BigNum)
        requires
            other@ <= self@,
        ensures
            r@ == self@ - other@,
    {
        BigNum { bytes: sub_bytes(&self.bytes, &other.bytes) }
    }

    /// `self * other`.
    pub fn mul(&self, other: &BigNum) -> (r: BigNum)
        ensures
            r@ == self@ * other@,
    {
        BigNum { bytes: mul_bytes(&self.bytes, &other.bytes) }
    }

    /// `self % modulus`.
    pub fn rem(&self, modulus: &BigNum) -> (r: BigNum)
        requires
            modulus@ > 0,
        ensures
            r@ == self@ % modulus@,
    {
        BigNum { bytes: rem_bytes(&self.bytes, &modulus.bytes) }
    }

    /// A number drawn uniformly from `[0, limit)`.
    pub fn random_below(rng: &mut ThreadRng, limit: &BigNum) -> (r: BigNum)
        requires
            limit@ > 0,
        ensures
            r@ < limit@,
    {
        BigNum { bytes: draw_bytes_below(rng, &limit.bytes) }
    }

    /// Whether the two numbers have the same value.
    pub fn same_value(&self, other: &BigNum) -> (r: bool)
        ensures
            r == (self@ == other@),
    {
        eq_bytes(&self.bytes, &other.bytes)
    }

    /// Whether `self < other`.
    pub fn less_than(&self, other: &BigNum) -> (r: bool)
        ensures
            r == (self@ < other@),
    {
        lt_bytes(&self.bytes, &other.bytes)
    }
}

/// Relies on `BigUint::from(u64)` and `BigUint::to_bytes_be`: the bytes of `v`.
#[verifier::external_body]
fn u64_bytes(v: u64) -> (r: Vec<u8>)
    ensures
        be_value(r@) == v,
{
    BigUint::from(v).to_bytes_be()
}

/// Relies on `BigUint::modpow`, which computes `(base ^ exp) % m` and panics
/// only when `m` is zero.
#[verifier::external_body]
fn modpow_bytes(base: &Vec<u8>, exp: &Vec<u8>, m: &Vec<u8>) -> (r: Vec<u8>)
    requires
        be_value(m@) > 1,
    ensures
        be_value(r@) == pow(be_value(base@) as int, be_value(exp@)) % (be_value(m@) as int),
{
    let b = BigUint::from_bytes_be(base);
    b.modpow(&BigUint::from_bytes_be(exp), &BigUint::from_bytes_be(m)).to_bytes_be()
}

/// Relies on `BigUint + &BigUint`: the sum.
#[verifier::external_body]
fn add_bytes(a: &Vec<u8>, b: &Vec<u8>) -> (r: Vec<u8>)
    ensures
        be_value(r@) == be_value(a@) + be_value(b@),
{
    (BigUint::from_bytes_be(a) + &BigUint::from_bytes_be(b)).to_bytes_be()
}

/// Relies on `BigUint - &BigUint`: the difference, which panics when `b > a`.
#[verifier::external_body]
fn sub_bytes(a: &Vec<u8>, b: &Vec<u8>) -> (r: Vec<u8>)
    requires
        be_value(b@) <= be_value(a@),
    ensures
        be_value(r@) == be_value(a@) - be_value(b@),
{
    (BigUint::from_bytes_be(a) - &BigUint::from_bytes_be(b)).to_bytes_be()
}

/// Relies on `BigUint * &BigUint`: the product.
#[verifier::external_body]
fn mul_bytes(a: &Vec<u8>, b: &Vec<u8>) -> (r: Vec<u8>)
    ensures
        be_value(r@) == be_value(a@) * be_value(b@),
{
    (BigUint::from_bytes_be(a) * &BigUint::from_bytes_be(b)).to_bytes_be()
}

/// Relies on `BigUint % &BigUint`: the remainder, which panics on a zero divisor.
#[verifier::external_body]
fn rem_bytes(a: &Vec<u8>, m: &Vec<u8>) -> (r: Vec<u8>)
    requires
        be_value(m@) > 0,
    ensures
        be_value(r@) == be_value(a@) % be_value(m@),
{
    (BigUint::from_bytes_be(a) % &BigUint::from_bytes_be(m)).to_bytes_be()
}

/// Relies on `RandBigInt::gen_biguint_below`: a value below `limit`, which
/// panics when `limit` is zero.
#[verifier::external_body]
fn draw_bytes_below(rng: &mut ThreadRng, limit: &Vec<u8>) -> (r: Vec<u8>)
    requires
        be_value(limit@) > 0,
    ensures
        be_value(r@) < be_value(limit@),
{
    rng.gen_biguint_below(&BigUint::from_bytes_be(limit)).to_bytes_be()
}

/// Relies on `BigUint == BigUint`: equality of the values.
#[verifier::external_body]
fn eq_bytes(a: &Vec<u8>, b: &Vec<u8>) -> (r: bool)
    ensures
        r == (be_value(a@) == be_value(b@)),
{
    BigUint::from_bytes_be(a) == BigUint::from_bytes_be(b)
}

/// Relies on `BigUint < BigUint`: order of the values.
#[verifier::external_body]
fn lt_bytes(a: &Vec<u8>, b: &Vec<u8>) -> (r: bool)
    ensures
        r == (be_value(a@) < be_value(b@)),
{
    BigUint::from_bytes_be(a) < BigUint::from_bytes_be(b)
}

} // verus!
