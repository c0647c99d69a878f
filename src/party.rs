//! The parties of a Diffie-Hellman exchange and the exchange between two of them.
use rand::rngs::OsRng;
use rand::RngCore;
use vstd::arithmetic::power::*;
use vstd::prelude::*;

use crate::cipher::{decrypt, ecb_pkcs7_encrypt, encrypt};
use crate::key::{derive_key, key_of};
use crate::natural::{lemma_dh_agreement, mod_pow, modexp, Natural};
use crate::DhError;

verus! {

/// The generator of the illustrative group.
pub const BASE: u32 = 5;

/// The modulus of the illustrative group; far too small for real use.
pub const PRIMEMOD: u32 = 57;

/// The publicly agreed base and modulus of an exchange; the modulus exceeds one.
pub struct DomainParameters {
    base: Natural,
    modulus: Natural,
}

impl View for DomainParameters {
    type V = (nat, nat);

    closed spec fn view(&self) -> (nat, nat) {
        (self.base@, self.modulus@)
    }
}

impl DomainParameters {
    #[verifier::type_invariant]
    spec fn modulus_exceeds_one(&self) -> bool {
        self.modulus@ > 1
    }

    /// Parameters with the given base and modulus; a modulus of zero or one is
    /// refused with `InvalidParameters`.
    pub fn new(base: Natural, modulus: Natural) -> (r: Result<DomainParameters, DhError>)
        ensures
            modulus@ <= 1 <==> r is Err,
            r matches Err(e) ==> e == DhError::InvalidParameters,
            r matches Ok(p) ==> p@ == (base@, modulus@),
    {
        if !modulus.exceeds_one() {
            return Err(DhError::InvalidParameters);
        }
        Ok(DomainParameters { base, modulus })
    }

    /// The illustrative parameters: base `BASE`, modulus `PRIMEMOD`.
    pub fn standard() -> (r: DomainParameters)
        ensures
            r@ == (BASE as nat, PRIMEMOD as nat),
    {
        DomainParameters {
            base: Natural::from_u128(BASE as u128),
            modulus: Natural::from_u128(PRIMEMOD as u128),
        }
    }

    /// Another value holding the same parameters.
    pub fn duplicate(&self) -> (r: DomainParameters)
        ensures
            r@ == self@,
    {
        proof {
            use_type_invariant(self);
        }
        DomainParameters { base: self.base.duplicate(), modulus: self.modulus.duplicate() }
    }

    /// The base.
    pub fn base(&self) -> (r: &Natural)
        ensures
            r@ == self@.0,
    {
        &self.base
    }

    /// The modulus.
    pub fn modulus(&self) -> (r: &Natural)
        ensures
            r@ == self@.1,
    {
        &self.modulus
    }
}

/// Relies on rand's `OsRng::try_fill_bytes`, which fills the buffer from the
/// operating system's random source or reports that the source failed; the
/// bytes are read as a little-endian `u128`.
#[verifier::external_body]
fn os_random_u128() -> (r: Option<u128>) {
    let mut buf = [0u8; 16];
    match OsRng.try_fill_bytes(&mut buf) {
        Ok(()) => Some(u128::from_le_bytes(buf)),
        Err(_) => None,
    }
}

/// A fresh private key drawn from the operating system's random source, below
/// `2^128 = 256^16`; `EntropyUnavailable` where that source fails.
pub fn generate_random_key() -> (r: Result<Natural, DhError>)
    ensures
        r matches Ok(k) ==> k@ < pow(256, 16),
        r matches Err(e) ==> e == DhError::EntropyUnavailable,
{
    match os_random_u128() {
        Some(v) => {
            proof {
                reveal_with_fuel(pow, 17);
            }
            Ok(Natural::from_u128(v))
        },
        None => Err(DhError::EntropyUnavailable),
    }
}

/// Where a party stands in the exchange.
#[derive(Debug, Clone, Copy, PartialEq, Eq, Structural)]
pub enum PartyState {
    /// It holds its private key only.
    Initialized,
    /// It has computed its public value.
    PublicValueComputed,
    /// It has derived a shared secret from a peer's public value.
    SecretEstablished,
}

/// One side of an exchange: its private key, and what it has computed so far.
pub struct Party {
    params: DomainParameters,
    private_key: Natural,
    public_value: Option<Natural>,
    shared_secret: Option<Natural>,
}

/// The number held by an optional value.
pub open spec fn opt_view(v: Option<Natural>) -> Option<nat> {
    match v {
        Some(n) => Some(n@),
        None => None,
    }
}

impl Party {
    /// The parameters the party works with.
    pub closed spec fn spec_params(&self) -> (nat, nat) {
        self.params@
    }

    /// The private key.
    pub closed spec fn spec_private_key(&self) -> nat {
        self.private_key@
    }

    /// The public value, once computed.
    pub closed spec fn spec_public_value(&self) -> Option<nat> {
        opt_view(self.public_value)
    }

    /// The shared secret, once derived.
    pub closed spec fn spec_shared_secret(&self) -> Option<nat> {
        opt_view(self.shared_secret)
    }

    /// The party's state, as its values show it.
    pub open spec fn spec_state(&self) -> PartyState {
        if self.spec_shared_secret() is Some {
            PartyState::SecretEstablished
        } else if self.spec_public_value() is Some {
            PartyState::PublicValueComputed
        } else {
            PartyState::Initialized
        }
    }

    /// What a party holds at every step: the modulus exceeds one, a public
    /// value is `base^key mod modulus`, and a secret comes after the public value.
    pub open spec fn wf(&self) -> bool {
        &&& self.spec_params().1 > 1
        &&& self.spec_public_value() matches Some(v) ==> v == mod_pow(
            self.spec_params().0,
            self.spec_private_key(),
            self.spec_params().1,
        )
        &&& self.spec_shared_secret() is Some ==> self.spec_public_value() is Some
        &&& self.spec_shared_secret() matches Some(s) ==> s < self.spec_params().1
    }

    /// A party in the `Initialized` state with the given private key.
    pub fn new(params: DomainParameters, private_key: Natural) -> (r: Party)
        ensures
            r.wf(),
            r.spec_params() == params@,
            r.spec_private_key() == private_key@,
            r.spec_state() == PartyState::Initialized,
    {
        proof {
            use_type_invariant(&params);
        }
        Party { params, private_key, public_value: None, shared_secret: None }
    }

    /// A party with a fresh random private key below `2^128`;
    /// `EntropyUnavailable` where no randomness can be had.
    pub fn generate(params: DomainParameters) -> (r: Result<Party, DhError>)
        ensures
            r matches Ok(p) ==> p.wf() && p.spec_params() == params@ && p.spec_private_key() < pow(
                256,
                16,
            ) && p.spec_state() == PartyState::Initialized,
            r matches Err(e) ==> e == DhError::EntropyUnavailable,
    {
        match generate_random_key() {
            Ok(k) => Ok(Party::new(params, k)),
            Err(e) => Err(e),
        }
    }

    /// The state the party is in.
    pub fn state(&self) -> (r: PartyState)
        ensures
            r == self.spec_state(),
    {
        if self.shared_secret.is_some() {
            PartyState::SecretEstablished
        } else if self.public_value.is_some() {
            PartyState::PublicValueComputed
        } else {
            PartyState::Initialized
        }
    }

    /// The private key.
    pub fn private_key(&self) -> (r: &Natural)
        ensures
            r@ == self.spec_private_key(),
    {
        &self.private_key
    }

    /// Computes and keeps the public value `base^key mod modulus`.
    pub fn compute_public_value(&mut self) -> (r: Natural)
        requires
            old(self).wf(),
        ensures
            final(self).wf(),
            r@ == mod_pow(old(self).spec_params().0, old(self).spec_private_key(), old(self).spec_params().1),
            r@ < old(self).spec_params().1,
            final(self).spec_public_value() == Some(r@),
            final(self).spec_shared_secret() == old(self).spec_shared_secret(),
            final(self).spec_params() == old(self).spec_params(),
            final(self).spec_private_key() == old(self).spec_private_key(),
    {
        proof {
            use_type_invariant(&self.params);
        }
        match modexp(&self.params.base, &self.private_key, &self.params.modulus) {
            Ok(v) => {
                self.public_value = Some(v.duplicate());
                v
            },
            Err(_) => {
                // unreachable: the modulus exceeds one
                Natural::from_u128(0)
            },
        }
    }

    /// The public value, once computed.
    pub fn public_value(&self) -> (r: Option<Natural>)
        ensures
            opt_view(r) == self.spec_public_value(),
    {
        match &self.public_value {
            Some(v) => Some(v.duplicate()),
            None => None,
        }
    }

    /// Derives the shared secret `peer^key mod modulus` from a peer's public
    /// value and keeps it in place of any earlier one. A peer value outside
    /// `[0, modulus)` is taken modulo the modulus, which leaves the result unchanged.
    pub fn derive_secret(&mut self, peer_public_value: &Natural) -> (r: Natural)
        requires
            old(self).wf(),
            old(self).spec_public_value() is Some,
        ensures
            final(self).wf(),
            r@ == mod_pow(peer_public_value@, old(self).spec_private_key(), old(self).spec_params().1),
            r@ == mod_pow(
                peer_public_value@ % old(self).spec_params().1,
                old(self).spec_private_key(),
                old(self).spec_params().1,
            ),
            final(self).spec_shared_secret() == Some(r@),
            final(self).spec_public_value() == old(self).spec_public_value(),
            final(self).spec_params() == old(self).spec_params(),
            final(self).spec_private_key() == old(self).spec_private_key(),
    {
        proof {
            use_type_invariant(&self.params);
        }
        proof {
            lemma_pow_mod_noop(
                peer_public_value@ as int,
                self.private_key@,
                self.params@.1 as int,
            );
        }
        match modexp(peer_public_value, &self.private_key, &self.params.modulus) {
            Ok(v) => {
                self.shared_secret = Some(v.duplicate());
                v
            },
            Err(_) => {
                // unreachable: the modulus exceeds one
                Natural::from_u128(0)
            },
        }
    }

    /// The shared secret, once derived.
    pub fn shared_secret(&self) -> (r: Option<Natural>)
        ensures
            opt_view(r) == self.spec_shared_secret(),
    {
        match &self.shared_secret {
            Some(v) => Some(v.duplicate()),
            None => None,
        }
    }

    /// The symmetric key taken from the shared secret, once derived.
    pub fn symmetric_key(&self) -> (r: Option<[u8; 16]>)
        ensures
            r matches Some(k) ==> self.spec_shared_secret() matches Some(s) && k@ == key_of(s),
            r is None <==> self.spec_shared_secret() is None,
    {
        match &self.shared_secret {
            Some(v) => Some(derive_key(v)),
            None => None,
        }
    }
}

/// What each step of an exchange produced.
pub struct ExchangeTranscript {
    /// The initiator's public value.
    pub initiator_public: Natural,
    /// The responder's public value.
    pub responder_public: Natural,
    /// The secret the initiator derived.
    pub initiator_secret: Natural,
    /// The secret the responder derived.
    pub responder_secret: Natural,
    /// The initiator's message, encrypted under the initiator's key.
    pub ciphertext_a: Vec<u8>,
    /// That message, as the responder decrypted it.
    pub plaintext_a: Vec<u8>,
    /// The responder's message, encrypted under the responder's key.
    pub ciphertext_b: Vec<u8>,
    /// That message, as the initiator decrypted it.
    pub plaintext_b: Vec<u8>,
}

/// Runs an exchange between an initiator with private key `initiator_key` and
/// a responder with private key `responder_key`: each computes its public
/// value, each derives the secret from the other's, then the initiator sends
/// `message_a` encrypted and the responder `message_b`, and each decrypts what
/// the other sent with its own key. Both derive the same secret, so both
/// messages arrive unchanged.
pub fn run_exchange(
    params: &DomainParameters,
    initiator_key: Natural,
    responder_key: Natural,
    message_a: &[u8],
    message_b: &[u8],
) -> (r: ExchangeTranscript)
    ensures
        r.initiator_public@ == mod_pow(params@.0, initiator_key@, params@.1),
        r.responder_public@ == mod_pow(params@.0, responder_key@, params@.1),
        r.initiator_secret@ == mod_pow(r.responder_public@, initiator_key@, params@.1),
        r.responder_secret@ == mod_pow(r.initiator_public@, responder_key@, params@.1),
        r.initiator_secret@ == r.responder_secret@,
        r.ciphertext_a@ == ecb_pkcs7_encrypt(key_of(r.initiator_secret@), message_a@),
        r.ciphertext_b@ == ecb_pkcs7_encrypt(key_of(r.responder_secret@), message_b@),
        r.plaintext_a@ == message_a@,
        r.plaintext_b@ == message_b@,
{
    let mut initiator = Party::new(params.duplicate(), initiator_key);
    let mut responder = Party::new(params.duplicate(), responder_key);
    let initiator_public = initiator.compute_public_value();
    let responder_public = responder.compute_public_value();
    let responder_secret = responder.derive_secret(&initiator_public);
    let initiator_secret = initiator.derive_secret(&responder_public);
    proof {
        lemma_dh_agreement(params@.0, initiator_key@, responder_key@, params@.1);
    }
    let key_a = derive_key(&initiator_secret);
    let key_b = derive_key(&responder_secret);
    let ciphertext_a = encrypt(message_a, &key_a);
    let ciphertext_b = encrypt(message_b, &key_b);
    let plaintext_a = match decrypt(&ciphertext_a, &key_b) {
        Ok(p) => p,
        Err(_) => Vec::new(),  // unreachable: both keys come from one secret
    };
    let plaintext_b = match decrypt(&ciphertext_b, &key_a) {
        Ok(p) => p,
        Err(_) => Vec::new(),  // unreachable: both keys come from one secret
    };
    ExchangeTranscript {
        initiator_public,
        responder_public,
        initiator_secret,
        responder_secret,
        ciphertext_a,
        plaintext_a,
        ciphertext_b,
        plaintext_b,
    }
}

} // verus!
