//! The Chaum-Pedersen math: group parameters, commitments, responses and the
//! verification equation.
use crate::bignum::{be_value, BigNum};
use crate::random::{draw_index, new_rng};
use crate::hexcode::{
    decode_hex, hex_bytes, hex_digits_from, is_hex_text, lemma_hex_digits_from,
};
use vstd::arithmetic::div_mod::{lemma_mod_multiples_vanish, lemma_mul_mod_noop, lemma_sub_mod_noop_right};
use vstd::arithmetic::power::{lemma_pow1, pow};
use vstd::prelude::*;
use vstd::string::{StrSliceExecFns, StringExecFns};

verus! {

/// The prime modulus `p` (1024 bits), in hexadecimal.
pub const MODULUS_HEX: &'static str = "B10B8F96A080E01DDE92DE5EAE5D54EC52C99FBCFB06A3C69A6A9DCA52D23B616073E28675A23D189838EF1E2EE652C013ECB4AEA906112324975C3CD49B83BFACCBDD7D90C4BD7098488E9C219A73724EFFD6FAE5644738FAA31A4FF55BCCC0A151AF5F0DC8B4BD45BF37DF365C1A65E68CFDA76D4DA708DF1FB2BC2E4A4371";

/// The prime order `q` (160 bits) of the subgroup, in hexadecimal.
pub const ORDER_HEX: &'static str = "F518AA8781A8DF278ABA4E7D64B7CB9D49462353";

/// The generator `alpha` of the order-`q` subgroup, in hexadecimal.
pub const GENERATOR_HEX: &'static str = "A4D1CBD5C3FD34126765A442EFB99905F8104DD258AC507FD6406CFF14266D31266FEA1E5C41564B777E690F5504F213160217B4B01B886A5E91547F9E2749F4D7FBD7D3B9A92EE1909D0D2263F80A76A6A24C087A091F531DBF0A0169B6A28AD662A4D18E73AFA32D779D5918D08BC8858F4DCEF97C2A24855E6EEB22B3B2E5";

/// The fixed exponent `e` with `beta = alpha^e mod p`, in hexadecimal.
pub const BETA_EXPONENT_HEX: &'static str = "266FEA1E5C41564B777E69";

/// The symbols of random tokens.
pub const TOKEN_ALPHABET: &'static str = "ABCDEFGHIJKLMNOPQRSTUVWXYZabcdefghijklmnopqrstuvwxyz0123456789";

/// Whether every character of `s` is a symbol of the token alphabet.
pub open spec fn is_token_text(s: Seq<char>) -> bool {
    forall|i: int| 0 <= i < s.len() ==> TOKEN_ALPHABET@.contains(#[trigger] s[i])
}

/// The values of the group parameters.
pub struct GroupValues {
    pub alpha: nat,
    pub beta: nat,
    pub p: nat,
    pub q: nat,
}

/// `g^e mod p`: a commitment to the exponent `e`.
pub open spec fn commit(g: nat, e: nat, p: nat) -> nat {
    (pow(g as int, e) % (p as int)) as nat
}

/// The response `(k - c*x) mod q`, taken in `[0, q)`.
pub open spec fn response(k: nat, c: nat, x: nat, q: nat) -> nat {
    ((k - c * x) % (q as int)) as nat
}

/// The verification equation: `r1 == alpha^s * y1^c mod p` and
/// `r2 == beta^s * y2^c mod p`.
pub open spec fn accepts(g: GroupValues, r1: nat, r2: nat, y1: nat, y2: nat, c: nat, s: nat) -> bool {
    &&& r1 == (pow(g.alpha as int, s) * pow(y1 as int, c)) % (g.p as int)
    &&& r2 == (pow(g.beta as int, s) * pow(y2 as int, c)) % (g.p as int)
}

/// A modulus above one, a positive `q`, and `alpha^q = beta^q = 1 (mod p)`:
/// both generators lie in a subgroup whose order divides `q`.
pub open spec fn generators_close(g: GroupValues) -> bool {
    &&& g.p > 1
    &&& g.q > 0
    &&& pow(g.alpha as int, g.q) % (g.p as int) == 1
    &&& pow(g.beta as int, g.q) % (g.p as int) == 1
}

/// The parameters the fixed hexadecimal texts give.
pub open spec fn standard_group() -> GroupValues {
    let alpha = be_value(hex_bytes(GENERATOR_HEX@));
    let p = be_value(hex_bytes(MODULUS_HEX@));
    GroupValues {
        alpha,
        beta: commit(alpha, be_value(hex_bytes(BETA_EXPONENT_HEX@)), p),
        p,
        q: be_value(hex_bytes(ORDER_HEX@)),
    }
}

/// Group parameters for the protocol.
pub struct ZKP {
    pub alpha: BigNum,
    pub beta: BigNum,
    pub p: BigNum,
    pub q: BigNum,
}

impl View for ZKP {
    type V = GroupValues;

    open spec fn view(&self) -> GroupValues {
        GroupValues { alpha: self.alpha@, beta: self.beta@, p: self.p@, q: self.q@ }
    }
}

impl ZKP {
    /// What the operations need of the parameters: a modulus above one and a
    /// positive order.
    pub open spec fn wf(&self) -> bool {
        self.p@ > 1 && self.q@ > 0
    }

    /// The parameters built from the fixed constants.
    pub fn new() -> (r: ZKP)
        ensures
            r@ == standard_group(),
            r.wf(),
    {
        let (alpha, beta, p, q) = Self::get_constants();
        ZKP { alpha, beta, p, q }
    }

    /// `(alpha^exp mod p, beta^exp mod p)`.
    pub fn compute_pair(&self, exp: &BigNum) -> (r: (BigNum, BigNum))
        requires
            self.wf(),
        ensures
            r.0@ == commit(self.alpha@, exp@, self.p@),
            r.1@ == commit(self.beta@, exp@, self.p@),
    {
        let a = self.alpha.modpow(exp, &self.p);
        let b = self.beta.modpow(exp, &self.p);
        (a, b)
    }

    /// The response `s = (k - c*x) mod q`, computed as
    /// `(k + q - (c*x mod q)) mod q`.
    pub fn solve(&self, k: &BigNum, c: &BigNum, x: &BigNum) -> (r: BigNum)
        requires
            self.wf(),
        ensures
            r@ == response(k@, c@, x@, self.q@),
    {
        let res = c.mul(x).rem(&self.q);
        let sum = k.add(&self.q);
        let diff = sum.sub(&res);
        let r = diff.rem(&self.q);
        proof {
            let q = self.q@ as int;
            let kk = k@ as int;
            let cx = (c@ * x@) as int;
            lemma_mod_multiples_vanish(1, kk - cx % q, q);
            lemma_sub_mod_noop_right(kk, cx, q);
            assert(kk + q - cx % q == q * 1 + (kk - cx % q));
        }
        r
    }

    /// Whether `(r1, r2, y1, y2, c, s)` satisfies the verification equation.
    /// Both halves are always computed.
    pub fn verify(
        &self,
        r1: &BigNum,
        r2: &BigNum,
        y1: &BigNum,
        y2: &BigNum,
        c: &BigNum,
        s: &BigNum,
    ) -> (r: bool)
        requires
            self.wf(),
        ensures
            r == accepts(self@, r1@, r2@, y1@, y2@, c@, s@),
    {
        let one = BigNum::from_u64(1);
        let lhs1 = self.alpha.modpow(s, &self.p).mul(&y1.modpow(c, &self.p)).modpow(&one, &self.p);
        let cond1 = r1.same_value(&lhs1);
        let lhs2 = self.beta.modpow(s, &self.p).mul(&y2.modpow(c, &self.p)).modpow(&one, &self.p);
        let cond2 = r2.same_value(&lhs2);
        proof {
            let p = self.p@ as int;
            let a1 = pow(self.alpha@ as int, s@);
            let b1 = pow(y1@ as int, c@);
            let a2 = pow(self.beta@ as int, s@);
            let b2 = pow(y2@ as int, c@);
            lemma_pow1((a1 % p) * (b1 % p));
            lemma_pow1((a2 % p) * (b2 % p));
            lemma_mul_mod_noop(a1, b1, p);
            lemma_mul_mod_noop(a2, b2, p);
        }
        cond1 && cond2
    }

    /// Whether `alpha^q` and `beta^q` are both `1` modulo `p`.
    pub fn check_generators(&self) -> (r: bool)
        requires
            self.wf(),
        ensures
            r == generators_close(self@),
    {
        let one = BigNum::from_u64(1);
        let a = self.alpha.modpow(&self.q, &self.p);
        let b = self.beta.modpow(&self.q, &self.p);
        a.same_value(&one) && b.same_value(&one)
    }

    /// A number drawn uniformly from `[0, limit)`.
    pub fn generate_random_number_below(limit: &BigNum) -> (r: BigNum)
        requires
            limit@ > 0,
        ensures
            r@ < limit@,
    {
        let mut rng = new_rng();
        BigNum::random_below(&mut rng, limit)
    }

    /// A string of `size` symbols, each drawn uniformly from the token
    /// alphabet.
    pub fn generate_random_string(size: usize) -> (r: String)
        ensures
            r@.len() == size,
            is_token_text(r@),
    {
        proof {
            reveal_strlit("ABCDEFGHIJKLMNOPQRSTUVWXYZabcdefghijklmnopqrstuvwxyz0123456789");
        }
        let n = TOKEN_ALPHABET.unicode_len();
        let mut rng = new_rng();
        let mut out = String::new();
        let mut i: usize = 0;
        while i < size
            invariant
                i <= size,
                n == TOKEN_ALPHABET@.len(),
                n > 0,
                out@.len() == i,
                is_token_text(out@),
            decreases size - i,
        {
            let idx = draw_index(&mut rng, n);
            let symbol = TOKEN_ALPHABET.substring_char(idx, idx + 1);
            proof {
                assert(symbol@[0] == TOKEN_ALPHABET@[idx as int]);
            }
            let ghost before = out@;
            out.append(symbol);
            proof {
                assert forall|j: int| 0 <= j < out@.len() implies TOKEN_ALPHABET@.contains(
                    #[trigger] out@[j],
                ) by {
                    if j < before.len() {
                        assert(out@[j] == before[j]);
                    } else {
                        assert(out@[j] == symbol@[0]);
                    }
                }
            }
            i = i + 1;
        }
        out
    }

    /// The fixed parameters `(alpha, beta, p, q)`.
    pub fn get_constants() -> (r: (BigNum, BigNum, BigNum, BigNum))
        ensures
            r.0@ == standard_group().alpha,
            r.1@ == standard_group().beta,
            r.2@ == standard_group().p,
            r.3@ == standard_group().q,
            r.2@ > 1,
            r.3@ > 0,
    {
        proof {
            lemma_constant_texts_are_hex();
        }
        let p = BigNum::from_bytes_be(decode_hex(MODULUS_HEX).unwrap());
        let q = BigNum::from_bytes_be(decode_hex(ORDER_HEX).unwrap());
        let alpha = BigNum::from_bytes_be(decode_hex(GENERATOR_HEX).unwrap());
        let exp = BigNum::from_bytes_be(decode_hex(BETA_EXPONENT_HEX).unwrap());
        proof {
            lemma_be_value_first_byte(hex_bytes(MODULUS_HEX@));
            lemma_be_value_first_byte(hex_bytes(ORDER_HEX@));
        }
        let beta = alpha.modpow(&exp, &p);
        (alpha, beta, p, q)
    }
}

/// A number is at least its leading byte.
proof fn lemma_be_value_first_byte(b: Seq<u8>)
    requires
        b.len() > 0,
    ensures
        be_value(b) >= b[0],
    decreases b.len(),
{
    if b.len() > 1 {
        lemma_be_value_first_byte(b.drop_last());
        assert(b.drop_last()[0] == b[0]);
    }
}

/// The fixed texts are hexadecimal, and the leading bytes of `p` and `q`
/// are `0xB1` and `0xF5`.
proof fn lemma_constant_texts_are_hex()
    ensures
        is_hex_text(MODULUS_HEX@),
        is_hex_text(ORDER_HEX@),
        is_hex_text(GENERATOR_HEX@),
        is_hex_text(BETA_EXPONENT_HEX@),
        hex_bytes(MODULUS_HEX@).len() > 0 && hex_bytes(MODULUS_HEX@)[0] == 0xB1,
        hex_bytes(ORDER_HEX@).len() > 0 && hex_bytes(ORDER_HEX@)[0] == 0xF5,
{
    reveal_strlit("B10B8F96A080E01DDE92DE5EAE5D54EC52C99FBCFB06A3C69A6A9DCA52D23B616073E28675A23D189838EF1E2EE652C013ECB4AEA906112324975C3CD49B83BFACCBDD7D90C4BD7098488E9C219A73724EFFD6FAE5644738FAA31A4FF55BCCC0A151AF5F0DC8B4BD45BF37DF365C1A65E68CFDA76D4DA708DF1FB2BC2E4A4371");
    reveal_strlit("F518AA8781A8DF278ABA4E7D64B7CB9D49462353");
    reveal_strlit("A4D1CBD5C3FD34126765A442EFB99905F8104DD258AC507FD6406CFF14266D31266FEA1E5C41564B777E690F5504F213160217B4B01B886A5E91547F9E2749F4D7FBD7D3B9A92EE1909D0D2263F80A76A6A24C087A091F531DBF0A0169B6A28AD662A4D18E73AFA32D779D5918D08BC8858F4DCEF97C2A24855E6EEB22B3B2E5");
    reveal_strlit("266FEA1E5C41564B777E69");
    reveal_with_fuel(hex_digits_from, 40);
    assert(hex_digits_from(MODULUS_HEX@, 224));
    assert(hex_digits_from(MODULUS_HEX@, 192));
    assert(hex_digits_from(MODULUS_HEX@, 160));
    assert(hex_digits_from(MODULUS_HEX@, 128));
    assert(hex_digits_from(MODULUS_HEX@, 96));
    assert(hex_digits_from(MODULUS_HEX@, 64));
    assert(hex_digits_from(MODULUS_HEX@, 32));
    assert(hex_digits_from(MODULUS_HEX@, 0));
    lemma_hex_digits_from(MODULUS_HEX@, 0);
    assert(hex_digits_from(GENERATOR_HEX@, 224));
    assert(hex_digits_from(GENERATOR_HEX@, 192));
    assert(hex_digits_from(GENERATOR_HEX@, 160));
    assert(hex_digits_from(GENERATOR_HEX@, 128));
    assert(hex_digits_from(GENERATOR_HEX@, 96));
    assert(hex_digits_from(GENERATOR_HEX@, 64));
    assert(hex_digits_from(GENERATOR_HEX@, 32));
    assert(hex_digits_from(GENERATOR_HEX@, 0));
    lemma_hex_digits_from(GENERATOR_HEX@, 0);
    assert(hex_digits_from(ORDER_HEX@, 8));
    assert(hex_digits_from(ORDER_HEX@, 0));
    lemma_hex_digits_from(ORDER_HEX@, 0);
    assert(hex_digits_from(BETA_EXPONENT_HEX@, 0));
    lemma_hex_digits_from(BETA_EXPONENT_HEX@, 0);
}

} // verus!
