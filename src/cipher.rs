//! AES-128 in electronic-codebook mode with PKCS#7 padding. No
//! authentication tag is produced or checked.
use aes::cipher::generic_array::GenericArray;
use aes::{Aes128, NewBlockCipher};
use block_modes::block_padding::Pkcs7;
use block_modes::{BlockMode, BlockModeError, Ecb};
use vstd::prelude::*;
use vstd::string::StringSliceAdditionalSpecFns;

use crate::key::{derive_key, key_of};
use crate::natural::Natural;
use crate::DhError;

verus! {

#[verifier::external_type_specification]
#[verifier::external_body]
pub struct ExBlockModeError(BlockModeError);

/// The ciphertext that AES-128-ECB with PKCS#7 padding gives for `plain`
/// under the sixteen-byte `key`.
pub uninterp spec fn ecb_pkcs7_encrypt(key: Seq<u8>, plain: Seq<u8>) -> Seq<u8>;

/// The plaintext that AES-128-ECB with PKCS#7 padding recovers from
/// `ciphertext` under `key`, or `None` where the length or the padding is
/// malformed.
pub uninterp spec fn ecb_pkcs7_decrypt(key: Seq<u8>, ciphertext: Seq<u8>) -> Option<Seq<u8>>;

/// Length of the ciphertext for a plaintext of `n` bytes: `16 * ceil((n + 1) / 16)`,
/// since the padding always adds between one and sixteen bytes.
pub open spec fn padded_len(n: nat) -> nat {
    16 * ((n + 16) / 16)
}

/// Relies on block_modes' `Ecb::<Aes128, Pkcs7>::encrypt_vec`: it pads the
/// message with PKCS#7 to the next multiple of the 16-byte block (a full block
/// when already aligned) and encrypts each block with AES-128 under `key`;
/// `decrypt_vec` under the same key inverts it.
#[verifier::external_body]
fn ecb_encrypt(key: &[u8; 16], plain: &[u8]) -> (r: Vec<u8>)
    ensures
        r@ == ecb_pkcs7_encrypt(key@, plain@),
        ecb_pkcs7_decrypt(key@, r@) == Some(plain@),
        r@.len() == padded_len(plain@.len() as nat),
{
    let cipher = Aes128::new(&GenericArray::from(*key));
    Ecb::<Aes128, Pkcs7>::new(cipher, &Default::default()).encrypt_vec(plain)
}

/// Relies on block_modes' `Ecb::<Aes128, Pkcs7>::decrypt_vec`: it refuses a
/// length that is not a multiple of 16, decrypts each block with AES-128 under
/// `key` and strips PKCS#7 padding of at least one byte, refusing malformed
/// padding (an empty input has none).
#[verifier::external_body]
fn ecb_decrypt(key: &[u8; 16], ciphertext: &[u8]) -> (r: Result<Vec<u8>, BlockModeError>)
    ensures
        r matches Ok(v) ==> ecb_pkcs7_decrypt(key@, ciphertext@) == Some(v@),
        r is Err ==> ecb_pkcs7_decrypt(key@, ciphertext@) is None,
        ciphertext@.len() % 16 != 0 ==> r is Err,
        ciphertext@.len() == 0 ==> r is Err,
        r matches Ok(v) ==> v@.len() < ciphertext@.len(),
{
    let cipher = Aes128::new(&GenericArray::from(*key));
    Ecb::<Aes128, Pkcs7>::new(cipher, &Default::default()).decrypt_vec(ciphertext)
}

/// Encrypts `plaintext` under the sixteen-byte `key`.
pub fn encrypt(plaintext: &[u8], key: &[u8; 16]) -> (r: Vec<u8>)
    ensures
        r@ == ecb_pkcs7_encrypt(key@, plaintext@),
        ecb_pkcs7_decrypt(key@, r@) == Some(plaintext@),
        r@.len() == padded_len(plaintext@.len() as nat),
{
    ecb_encrypt(key, plaintext)
}

/// Decrypts `ciphertext` under the sixteen-byte `key`. A ciphertext made by
/// `encrypt` under the same key gives back its plaintext; one that is empty,
/// not a whole number of blocks, or whose padding is malformed is refused
/// with `PaddingInvalid`.
pub fn decrypt(ciphertext: &[u8], key: &[u8; 16]) -> (r: Result<Vec<u8>, DhError>)
    ensures
        r matches Ok(v) ==> ecb_pkcs7_decrypt(key@, ciphertext@) == Some(v@),
        r matches Err(e) ==> e == DhError::PaddingInvalid && ecb_pkcs7_decrypt(
            key@,
            ciphertext@,
        ) is None,
        ciphertext@.len() % 16 != 0 ==> r == Err::<Vec<u8>, DhError>(DhError::PaddingInvalid),
        ciphertext@.len() == 0 ==> r == Err::<Vec<u8>, DhError>(DhError::PaddingInvalid),
        r matches Ok(v) ==> v@.len() < ciphertext@.len(),
{
    match ecb_decrypt(key, ciphertext) {
        Ok(v) => Ok(v),
        Err(_) => Err(DhError::PaddingInvalid),
    }
}

/// Encrypts the text under the key derived from `secret_key`.
pub fn encrypt_data(plain_text: &str, secret_key: &Natural) -> (r: Vec<u8>)
    ensures
        r@ == ecb_pkcs7_encrypt(key_of(secret_key@), plain_text.spec_bytes()),
        ecb_pkcs7_decrypt(key_of(secret_key@), r@) == Some(plain_text.spec_bytes()),
        r@.len() == padded_len(plain_text.spec_bytes().len() as nat),
{
    let key = derive_key(secret_key);
    encrypt(plain_text.as_bytes(), &key)
}

/// Decrypts `encrypted_data` under the key derived from `secret_key`.
pub fn decrypt_data(encrypted_data: &[u8], secret_key: &Natural) -> (r: Result<Vec<u8>, DhError>)
    ensures
        r matches Ok(v) ==> ecb_pkcs7_decrypt(key_of(secret_key@), encrypted_data@) == Some(v@),
        r matches Err(e) ==> e == DhError::PaddingInvalid && ecb_pkcs7_decrypt(
            key_of(secret_key@),
            encrypted_data@,
        ) is None,
        encrypted_data@.len() % 16 != 0 ==> r == Err::<Vec<u8>, DhError>(DhError::PaddingInvalid),
        encrypted_data@.len() == 0 ==> r == Err::<Vec<u8>, DhError>(DhError::PaddingInvalid),
{
    let key = derive_key(secret_key);
    decrypt(encrypted_data, &key)
}

} // verus!
