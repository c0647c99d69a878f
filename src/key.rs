//! Turning a shared secret into key material for a 128-bit block cipher.
use vstd::arithmetic::power::*;
use vstd::prelude::*;

use crate::natural::{lemma_le_value_digit, Natural};

verus! {

/// Digit `i` of `n` in base 256.
pub open spec fn digit(n: nat, i: nat) -> u8 {
    ((n as int / pow(256, i)) % 256) as u8
}

/// The sixteen least significant base-256 digits of `n`, least significant
/// first: `n mod 2^128` in little-endian order.
pub open spec fn key_of(n: nat) -> Seq<u8> {
    Seq::new(16, |i: int| digit(n, i as nat))
}

/// The symmetric key for a shared secret: its sixteen least significant bytes,
/// little-endian, with zeros above the top of a short value. No hashing is
/// applied, so secrets equal modulo `2^128` give equal keys.
pub fn derive_key(secret: &Natural) -> (r: [u8; 16])
    ensures
        r@ == key_of(secret@),
{
    let bytes = secret.to_bytes_le();
    let mut key: [u8; 16] = [0u8; 16];
    let mut i: usize = 0;
    while i < 16
        invariant
            i <= 16,
            key@.len() == 16,
            crate::natural::le_value(bytes@) == secret@,
            forall|j: int| 0 <= j < i ==> key@[j] == digit(secret@, j as nat),
        decreases 16 - i,
    {
        proof {
            lemma_le_value_digit(bytes@, i as nat);
        }
        let b: u8 = if i < bytes.len() {
            bytes[i]
        } else {
            0
        };
        key[i] = b;
        i = i + 1;
    }
    assert(key@ =~= key_of(secret@));
    key
}

} // verus!
