//! Diffie-Hellman key agreement over arbitrary-precision integers, followed by
//! AES-128 encryption of messages under a key taken from the shared secret.
pub mod cipher;
pub mod key;
pub mod natural;
pub mod party;

use vstd::prelude::*;

verus! {

/// The ways in which an operation of this library can fail.
#[derive(Debug, Clone, Copy, PartialEq, Eq, Structural)]
pub enum DhError {
    /// The modulus is too small for the requested operation.
    InvalidParameters,
    /// The operating system could not supply random bytes.
    EntropyUnavailable,
    /// A ciphertext did not decrypt to well-formed padding.
    PaddingInvalid,
}

} // verus!
