//! Arbitrary-precision non-negative integers, held as little-endian bytes.
use num_bigint::BigUint;
use vstd::arithmetic::div_mod::*;
use vstd::arithmetic::power::*;
use vstd::prelude::*;

use crate::DhError;

verus! {

/// The number that a little-endian byte sequence denotes.
pub open spec fn le_value(s: Seq<u8>) -> nat
    decreases s.len(),
{
    if s.len() == 0 {
        0
    } else {
        s[0] as nat + 256 * le_value(s.drop_first())
    }
}

/// `b^e mod m`, for a modulus `m > 0`.
pub open spec fn mod_pow(b: nat, e: nat, m: nat) -> nat
    recommends
        m > 0,
{
    (pow(b as int, e) % (m as int)) as nat
}

/// Appending a byte at the top adds it at the weight of its position.
pub proof fn lemma_le_value_push(s: Seq<u8>, b: u8)
    ensures
        le_value(s.push(b)) == le_value(s) + pow(256, s.len()) * b,
    decreases s.len(),
{
    reveal(pow);
    if s.len() == 0 {
        assert(s.push(b).drop_first() =~= Seq::<u8>::empty());
        assert(le_value(s.push(b).drop_first()) == 0);
        assert(pow(256, 0) == 1);
    } else {
        assert(s.push(b).drop_first() =~= s.drop_first().push(b));
        assert(s.push(b)[0] == s[0]);
        lemma_le_value_push(s.drop_first(), b);
        let p = pow(256, (s.len() - 1) as nat);
        assert(pow(256, s.len()) == 256 * p);
        let r = le_value(s.drop_first());
        assert(256 * (r + p * b) == 256 * r + (256 * p) * b) by (nonlinear_arith);
        assert(le_value(s.push(b)) == s[0] as nat + 256 * le_value(s.drop_first().push(b)));
    }
}

/// A byte sequence denotes zero exactly when all of its bytes are zero.
pub proof fn lemma_le_value_zero(s: Seq<u8>)
    ensures
        (le_value(s) == 0) == (forall|i: int| 0 <= i < s.len() ==> s[i] == 0),
    decreases s.len(),
{
    if s.len() > 0 {
        lemma_le_value_zero(s.drop_first());
        if le_value(s) == 0 {
            assert forall|i: int| 0 <= i < s.len() implies s[i] == 0 by {
                if i > 0 {
                    assert(s[i] == s.drop_first()[i - 1]);
                }
            }
        }
        if forall|i: int| 0 <= i < s.len() ==> s[i] == 0 {
            assert forall|i: int| 0 <= i < s.drop_first().len() implies s.drop_first()[i] == 0 by {
                assert(s.drop_first()[i] == s[i + 1]);
            }
        }
    }
}

/// Byte `i` of a little-endian sequence is digit `i` of its value in base 256,
/// and every digit past the end is zero.
pub proof fn lemma_le_value_digit(s: Seq<u8>, i: nat)
    ensures
        (le_value(s) as int / pow(256, i)) % 256 == (if i < s.len() { s[i as int] as int } else { 0 }),
    decreases i,
{
    reveal(pow);
    lemma_pow_positive(256, i);
    if s.len() == 0 {
        assert(le_value(s) == 0);
        assert(0int / pow(256, i) == 0) by (nonlinear_arith)
            requires pow(256, i) > 0;
    } else {
        let r = le_value(s.drop_first()) as int;
        let b = s[0] as int;
        assert(le_value(s) == b + 256 * r);
        assert((b + 256 * r) / 256 == r && (b + 256 * r) % 256 == b) by (nonlinear_arith)
            requires 0 <= b < 256, r >= 0;
        if i == 0 {
            assert(pow(256, 0) == 1);
        } else {
            let p = pow(256, (i - 1) as nat);
            lemma_pow_positive(256, (i - 1) as nat);
            assert(pow(256, i) == 256 * p);
            lemma_div_denominator(b + 256 * r, 256, p);
            lemma_le_value_digit(s.drop_first(), (i - 1) as nat);
            if i < s.len() {
                assert(s.drop_first()[i - 1] == s[i as int]);
            }
        }
    }
}

/// Relies on num_bigint's `BigUint::modpow`, which returns
/// `(self ^ exponent) % modulus` and panics when the modulus is zero; the
/// operands pass through `BigUint::from_bytes_le` and the result through
/// `BigUint::to_bytes_le`, both little-endian.
#[verifier::external_body]
fn big_mod_pow(base: &Vec<u8>, exponent: &Vec<u8>, modulus: &Vec<u8>) -> (r: Vec<u8>)
    requires
        le_value(modulus@) > 0,
    ensures
        le_value(r@) == mod_pow(le_value(base@), le_value(exponent@), le_value(modulus@)),
{
    let b = BigUint::from_bytes_le(base);
    let e = BigUint::from_bytes_le(exponent);
    let m = BigUint::from_bytes_le(modulus);
    b.modpow(&e, &m).to_bytes_le()
}

/// Diffie-Hellman agreement: raising `base^a mod m` to `b` gives the same
/// residue as raising `base^b mod m` to `a`.
pub proof fn lemma_dh_agreement(base: nat, a: nat, b: nat, m: nat)
    requires
        m > 0,
    ensures
        mod_pow(mod_pow(base, a, m), b, m) == mod_pow(mod_pow(base, b, m), a, m),
{
    let g = base as int;
    let mi = m as int;
    lemma_pow_mod_noop(pow(g, a), b, mi);
    lemma_pow_mod_noop(pow(g, b), a, mi);
    lemma_pow_multiplies(g, a, b);
    lemma_pow_multiplies(g, b, a);
    assert(a * b == b * a) by (nonlinear_arith);
}

/// An arbitrary-precision non-negative integer.
pub struct Natural {
    bytes: Vec<u8>,
}

impl View for Natural {
    type V = nat;

    closed spec fn view(&self) -> nat {
        le_value(self.bytes@)
    }
}

impl Natural {
    /// The number that `bytes`, read as little-endian, denotes.
    pub fn from_bytes_le(bytes: Vec<u8>) -> (r: Natural)
        ensures
            r@ == le_value(bytes@),
    {
        Natural { bytes }
    }

    /// A little-endian byte sequence that denotes this number.
    pub fn to_bytes_le(&self) -> (r: Vec<u8>)
        ensures
            le_value(r@) == self@,
    {
        self.bytes.clone()
    }

    /// Another value holding the same number.
    pub fn duplicate(&self) -> (r: Natural)
        ensures
            r@ == self@,
    {
        Natural { bytes: self.bytes.clone() }
    }

    /// Whether this number is zero.
    pub fn is_zero(&self) -> (r: bool)
        ensures
            r == (self@ == 0),
    {
        proof {
            lemma_le_value_zero(self.bytes@);
        }
        let mut i: usize = 0;
        while i < self.bytes.len()
            invariant
                i <= self.bytes@.len(),
                forall|j: int| 0 <= j < i ==> self.bytes@[j] == 0,
            decreases self.bytes@.len() - i,
        {
            if self.bytes[i] != 0 {
                proof {
                    lemma_le_value_zero(self.bytes@);
                }
                assert(self.bytes@[i as int] != 0);
                return false;
            }
            i = i + 1;
        }
        proof {
            lemma_le_value_zero(self.bytes@);
        }
        true
    }

    /// Whether this number is greater than one.
    pub fn exceeds_one(&self) -> (r: bool)
        ensures
            r == (self@ > 1),
    {
        if self.bytes.len() == 0 {
            return false;
        }
        let s = Ghost(self.bytes@);
        proof {
            lemma_le_value_zero(s@.drop_first());
            assert(le_value(s@) == s@[0] as nat + 256 * le_value(s@.drop_first()));
        }
        if self.bytes[0] > 1 {
            return true;
        }
        let mut i: usize = 1;
        while i < self.bytes.len()
            invariant
                1 <= i <= self.bytes@.len(),
                s@ == self.bytes@,
                forall|j: int| 1 <= j < i ==> self.bytes@[j] == 0,
            decreases self.bytes@.len() - i,
        {
            if self.bytes[i] != 0 {
                proof {
                    lemma_le_value_zero(s@.drop_first());
                    assert(le_value(s@) == s@[0] as nat + 256 * le_value(s@.drop_first()));
                }
                assert(s@.drop_first()[i - 1] != 0);
                return true;
            }
            i = i + 1;
        }
        assert forall|j: int| 0 <= j < s@.drop_first().len() implies s@.drop_first()[j] == 0 by {
            assert(s@.drop_first()[j] == s@[j + 1]);
        }
        proof {
            lemma_le_value_zero(s@.drop_first());
            assert(le_value(s@) == s@[0] as nat + 256 * le_value(s@.drop_first()));
        }
        false
    }

    /// The number `v`, as sixteen little-endian bytes.
    pub fn from_u128(v: u128) -> (r: Natural)
        ensures
            r@ == v as nat,
    {
        let mut bytes: Vec<u8> = Vec::new();
        let mut x: u128 = v;
        let mut i: usize = 0;
        proof {
            reveal_with_fuel(pow, 17);
            assert(pow(256, 16) == 0x1_0000_0000_0000_0000_0000_0000_0000_0000);
            assert(pow(256, 0) == 1);
            assert(le_value(bytes@) == 0);
        }
        while i < 16
            invariant
                i <= 16,
                bytes@.len() == i,
                le_value(bytes@) + pow(256, i as nat) * x == v as nat,
                x < pow(256, (16 - i) as nat),
            decreases 16 - i,
        {
            let b: u8 = (x % 256) as u8;
            proof {
                lemma_le_value_push(bytes@, b);
                reveal(pow);
                let p = pow(256, i as nat);
                assert(pow(256, (i + 1) as nat) == p * 256) by {
                    lemma_pow_adds(256, i as nat, 1);
                }
                assert(p * x == p * b + (p * 256) * (x / 256)) by (nonlinear_arith)
                    requires b == x % 256, x >= 0;
                assert(pow(256, (16 - i) as nat) == 256 * pow(256, (16 - i - 1) as nat));
                assert(x / 256 < pow(256, (16 - i - 1) as nat)) by (nonlinear_arith)
                    requires x < 256 * pow(256, (16 - i - 1) as nat), x >= 0;
            }
            bytes.push(b);
            x = x / 256;
            i = i + 1;
        }
        proof {
            reveal(pow);
        }
        Natural { bytes }
    }
}

/// `base^exponent mod modulus`, in `[0, modulus)`; a zero modulus is refused.
pub fn modexp(base: &Natural, exponent: &Natural, modulus: &Natural) -> (r: Result<Natural, DhError>)
    ensures
        modulus@ == 0 <==> r is Err,
        r matches Err(e) ==> e == DhError::InvalidParameters,
        r matches Ok(v) ==> v@ == mod_pow(base@, exponent@, modulus@) && v@ < modulus@,
{
    if modulus.is_zero() {
        return Err(DhError::InvalidParameters);
    }
    let bytes = big_mod_pow(&base.bytes, &exponent.bytes, &modulus.bytes);
    Ok(Natural { bytes })
}

} // verus!
