//! Hybrid encryption to an X25519 public key.
//!
//! The sender makes a one-time X25519 key pair, agrees on a shared secret
//! with the recipient's public key, derives a ChaCha20-Poly1305 key from the
//! shared secret and the two public keys, and seals the plaintext under a
//! fixed nonce. The envelope carries the one-time public key and the
//! ciphertext with its tag.
//!
//! The nonce never changes, so a derived key must seal one plaintext only.
//! This holds as long as every envelope has a one-time secret of its own.
//! `seal` therefore takes its `OneTimeSecret` by value: the secret is used up
//! by the call, and it cannot be copied.
//!
//! The scheme does not tell the recipient who sealed an envelope: whoever has
//! the public key can make one.

use vstd::prelude::*;
use vstd::slice::slice_subrange;
use crate::bytes::{append_bytes, copy_bytes};
use crate::error::Error;
use crate::primitives::{
    chacha20_poly1305_open, chacha20_poly1305_opened, chacha20_poly1305_seal,
    chacha20_poly1305_sealed, os_random_key, pbkdf2_derive_key, pbkdf2_hmac_sha256,
    x25519_diffie_hellman, x25519_public, x25519_public_key, x25519_shared, KEY_LEN,
    MAX_PLAINTEXT_LEN, TAG_LEN,
};

verus! {

/// How often PBKDF2 iterates when the envelope key is derived.
pub const KDF_ITERATIONS: u32 = 1000;

/// The salt of the key derivation: one zero byte, the same for every envelope.
pub open spec fn kdf_salt() -> Seq<u8> {
    seq![0u8]
}

/// The nonce every envelope is sealed under: eleven zero bytes and a one.
pub open spec fn fixed_nonce() -> Seq<u8> {
    seq![0u8, 0u8, 0u8, 0u8, 0u8, 0u8, 0u8, 0u8, 0u8, 0u8, 0u8, 1u8]
}

/// What the key derivation is fed: the shared secret, then the one-time
/// public key, then the recipient's public key.
pub open spec fn kdf_input(
    shared: Seq<u8>,
    ephemeral_public: Seq<u8>,
    recipient_public: Seq<u8>,
) -> Seq<u8> {
    shared + ephemeral_public + recipient_public
}

/// The key an envelope is sealed under.
pub open spec fn envelope_key(
    shared: Seq<u8>,
    ephemeral_public: Seq<u8>,
    recipient_public: Seq<u8>,
) -> Seq<u8> {
    pbkdf2_hmac_sha256(
        KDF_ITERATIONS,
        kdf_salt(),
        kdf_input(shared, ephemeral_public, recipient_public),
    )
}

/// The envelope that sealing `plain` to `recipient_public` gives under the
/// one-time secret: the one-time public key and the ciphertext with its tag.
pub open spec fn sealed_envelope(
    plain: Seq<u8>,
    recipient_public: Seq<u8>,
    ephemeral_secret: Seq<u8>,
) -> (Seq<u8>, Seq<u8>) {
    let ephemeral_public = x25519_public(ephemeral_secret);
    let shared = x25519_shared(ephemeral_secret, recipient_public);
    (
        ephemeral_public,
        chacha20_poly1305_sealed(
            envelope_key(shared, ephemeral_public, recipient_public),
            fixed_nonce(),
            plain,
        ),
    )
}

/// What the holder of `secret`, who takes `own_public` for its public key,
/// recovers from an envelope. The one-time public key is the first 32 bytes
/// of its field; with fewer there, nothing is recovered.
pub open spec fn opened_with(
    secret: Seq<u8>,
    own_public: Seq<u8>,
    ephemeral_pubkey: Seq<u8>,
    data: Seq<u8>,
) -> Option<Seq<u8>> {
    if ephemeral_pubkey.len() < KEY_LEN {
        None
    } else {
        let ephemeral_public = ephemeral_pubkey.subrange(0, KEY_LEN as int);
        let shared = x25519_shared(secret, ephemeral_public);
        chacha20_poly1305_opened(
            envelope_key(shared, ephemeral_public, own_public),
            fixed_nonce(),
            data,
        )
    }
}

/// What the holder of `secret` recovers from an envelope.
pub open spec fn opened_envelope(
    secret: Seq<u8>,
    ephemeral_pubkey: Seq<u8>,
    data: Seq<u8>,
) -> Option<Seq<u8>> {
    opened_with(secret, x25519_public(secret), ephemeral_pubkey, data)
}

/// Whether `(ephemeral_pubkey, data)` is what sealing `plain` to
/// `recipient_public` gives under `ephemeral_secret`.
pub open spec fn is_sealing(
    ephemeral_secret: Seq<u8>,
    plain: Seq<u8>,
    recipient_public: Seq<u8>,
    ephemeral_pubkey: Seq<u8>,
    data: Seq<u8>,
) -> bool {
    ephemeral_secret.len() == KEY_LEN && sealed_envelope(plain, recipient_public, ephemeral_secret)
        == (ephemeral_pubkey, data)
}

/// Whether every secret that `recipient_public` belongs to recovers `plain`
/// from the envelope.
pub open spec fn opens_for_recipient(
    plain: Seq<u8>,
    recipient_public: Seq<u8>,
    ephemeral_pubkey: Seq<u8>,
    data: Seq<u8>,
) -> bool {
    forall|secret: Seq<u8>|
        secret.len() == KEY_LEN && #[trigger] x25519_public(secret) == recipient_public
            ==> opened_envelope(secret, ephemeral_pubkey, data) == Some(plain)
}

/// The output of hybrid encryption: the sender's one-time public key and the
/// ciphertext, whose last 16 bytes are the authentication tag.
pub struct Encrypted {
    pub ephemeral_pubkey: Vec<u8>,
    pub data: Vec<u8>,
}

/// The secret half of a one-time X25519 key pair: 32 bytes that seal one
/// envelope and are then gone.
pub struct OneTimeSecret {
    bytes: Vec<u8>,
}

impl View for OneTimeSecret {
    type V = Seq<u8>;

    closed spec fn view(&self) -> Seq<u8> {
        self.bytes@
    }
}

impl OneTimeSecret {
    #[verifier::type_invariant]
    spec fn well_formed(&self) -> bool {
        self.bytes@.len() == KEY_LEN
    }

    /// Draws a fresh secret from the operating system's random generator.
    /// Fails only where the generator gives nothing.
    pub fn generate() -> (out: Result<OneTimeSecret, Error>)
        ensures
            match out {
                Ok(secret) => secret@.len() == KEY_LEN,
                Err(e) => e == Error::EntropyUnavailable,
            },
    {
        match os_random_key() {
            None => Err(Error::EntropyUnavailable),
            Some(bytes) => Ok(OneTimeSecret { bytes }),
        }
    }

    /// Takes 32 bytes for the secret. They must come from a cryptographic
    /// random generator and must never have been used before.
    pub fn from_bytes(bytes: &[u8]) -> (out: Result<OneTimeSecret, Error>)
        ensures
            match out {
                Ok(secret) => secret@ == bytes@ && bytes@.len() == KEY_LEN,
                Err(e) => e == Error::BadKeyLength && bytes@.len() != KEY_LEN,
            },
    {
        if bytes.len() != KEY_LEN {
            return Err(Error::BadKeyLength);
        }
        Ok(OneTimeSecret { bytes: copy_bytes(bytes) })
    }
}

/// The nonce as bytes.
fn nonce_bytes() -> (nonce: Vec<u8>)
    ensures
        nonce@ == fixed_nonce(),
{
    let nonce: Vec<u8> = vec![0u8, 0u8, 0u8, 0u8, 0u8, 0u8, 0u8, 0u8, 0u8, 0u8, 0u8, 1u8];
    assert(nonce@ =~= fixed_nonce());
    nonce
}

/// Derives the key of an envelope.
fn derive_envelope_key(shared: &[u8], ephemeral_public: &[u8], recipient_public: &[u8]) -> (key:
    Vec<u8>)
    ensures
        key@ == envelope_key(shared@, ephemeral_public@, recipient_public@),
        key@.len() == KEY_LEN,
{
    let salt: Vec<u8> = vec![0u8];
    assert(salt@ =~= kdf_salt());
    let mut input: Vec<u8> = Vec::new();
    append_bytes(&mut input, shared);
    append_bytes(&mut input, ephemeral_public);
    append_bytes(&mut input, recipient_public);
    assert(input@ =~= kdf_input(shared@, ephemeral_public@, recipient_public@));
    pbkdf2_derive_key(KDF_ITERATIONS, salt.as_slice(), input.as_slice())
}

/// Seals `plain` to the holder of `recipient_public` and uses up the
/// one-time secret.
///
/// A recipient key that is not 32 bytes long is refused, and so is a
/// plaintext that is too long. Otherwise the envelope is the one
/// `sealed_envelope` names, and every secret that the recipient's public key
/// belongs to opens it to the plaintext.
pub fn seal(plain: &[u8], recipient_public: &[u8], ephemeral_secret: OneTimeSecret) -> (out: Result<
    Encrypted,
    Error,
>)
    ensures
        match out {
            Ok(envelope) => {
                &&& recipient_public@.len() == KEY_LEN
                &&& plain@.len() <= MAX_PLAINTEXT_LEN
                &&& is_sealing(
                    ephemeral_secret@,
                    plain@,
                    recipient_public@,
                    envelope.ephemeral_pubkey@,
                    envelope.data@,
                )
                &&& envelope.ephemeral_pubkey@.len() == KEY_LEN
                &&& envelope.data@.len() == plain@.len() + TAG_LEN
                &&& opens_for_recipient(
                    plain@,
                    recipient_public@,
                    envelope.ephemeral_pubkey@,
                    envelope.data@,
                )
            },
            Err(e) => if recipient_public@.len() != KEY_LEN {
                e == Error::BadKeyLength
            } else {
                e == Error::PlaintextTooLong && plain@.len() > MAX_PLAINTEXT_LEN
            },
        },
{
    proof {
        use_type_invariant(&ephemeral_secret);
    }
    if recipient_public.len() != KEY_LEN {
        return Err(Error::BadKeyLength);
    }
    let secret: &[u8] = ephemeral_secret.bytes.as_slice();
    let ephemeral_pubkey: Vec<u8> = x25519_public_key(secret);
    let shared: Vec<u8> = x25519_diffie_hellman(secret, recipient_public);
    let key: Vec<u8> = derive_envelope_key(
        shared.as_slice(),
        ephemeral_pubkey.as_slice(),
        recipient_public,
    );
    let nonce: Vec<u8> = nonce_bytes();
    match chacha20_poly1305_seal(key.as_slice(), nonce.as_slice(), plain) {
        None => Err(Error::PlaintextTooLong),
        Some(data) => {
            proof {
                assert(ephemeral_pubkey@.subrange(0, KEY_LEN as int) =~= ephemeral_pubkey@);
                assert forall|secret: Seq<u8>|
                    secret.len() == KEY_LEN && #[trigger] x25519_public(secret)
                        == recipient_public@ implies opened_envelope(
                    secret,
                    ephemeral_pubkey@,
                    data@,
                ) == Some(plain@) by {
                    assert(shared@ == x25519_shared(secret, ephemeral_pubkey@));
                }
            }
            Ok(Encrypted { ephemeral_pubkey, data })
        },
    }
}

/// Opens an envelope with the recipient's secret and the public key the
/// recipient goes by.
///
/// A secret or public key that is not 32 bytes long is refused. An envelope
/// whose one-time key has fewer than 32 bytes, or that does not authenticate,
/// fails to decrypt; nothing of the plaintext is returned then.
pub fn open(envelope: &Encrypted, secret: &[u8], own_public: &[u8]) -> (out: Result<Vec<u8>, Error>)
    ensures
        match out {
            Ok(plain) => {
                &&& secret@.len() == KEY_LEN
                &&& own_public@.len() == KEY_LEN
                &&& opened_with(
                    secret@,
                    own_public@,
                    envelope.ephemeral_pubkey@,
                    envelope.data@,
                ) == Some(plain@)
                &&& plain@.len() + TAG_LEN == envelope.data@.len()
            },
            Err(e) => if secret@.len() != KEY_LEN || own_public@.len() != KEY_LEN {
                e == Error::BadKeyLength
            } else {
                e == Error::DecryptionFailed && opened_with(
                    secret@,
                    own_public@,
                    envelope.ephemeral_pubkey@,
                    envelope.data@,
                ) is None
            },
        },
{
    if secret.len() != KEY_LEN || own_public.len() != KEY_LEN {
        return Err(Error::BadKeyLength);
    }
    if envelope.ephemeral_pubkey.len() < KEY_LEN {
        return Err(Error::DecryptionFailed);
    }
    let ephemeral_public: &[u8] = slice_subrange(envelope.ephemeral_pubkey.as_slice(), 0, KEY_LEN);
    let shared: Vec<u8> = x25519_diffie_hellman(secret, ephemeral_public);
    let key: Vec<u8> = derive_envelope_key(shared.as_slice(), ephemeral_public, own_public);
    let nonce: Vec<u8> = nonce_bytes();
    match chacha20_poly1305_open(key.as_slice(), nonce.as_slice(), envelope.data.as_slice()) {
        None => Err(Error::DecryptionFailed),
        Some(plain) => Ok(plain),
    }
}

} // verus!
