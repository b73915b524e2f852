//! The cryptographic primitives the keyring is built from.
//!
//! Every function in this module is a thin, trusted call into `ring`,
//! `x25519-dalek` or `rand`. None of their bodies is verified; each doc comment
//! says what is assumed of the call. What a primitive computes is not written
//! out here: it is given a name, and the rest of the crate reasons about the
//! names.

use vstd::prelude::*;

verus! {

/// Length in bytes of every seed, secret, public key and shared secret.
pub const KEY_LEN: usize = 32;

/// Length in bytes of an Ed25519 signature.
pub const SIGNATURE_LEN: usize = 64;

/// Length in bytes of the nonce ChaCha20-Poly1305 takes.
pub const NONCE_LEN: usize = 12;

/// Length in bytes of the authentication tag that sealing appends.
pub const TAG_LEN: usize = 16;

/// The longest plaintext, in bytes, that ChaCha20-Poly1305 seals under one
/// nonce: 64 bytes for each value of its 32-bit block counter but one.
pub const MAX_PLAINTEXT_LEN: u64 = 274_877_906_880;

/// The Ed25519 public key that belongs to a 32-byte seed.
pub uninterp spec fn ed25519_public(seed: Seq<u8>) -> Seq<u8>;

/// The Ed25519 signature of `message` under the key pair of `seed`.
pub uninterp spec fn ed25519_signature(seed: Seq<u8>, message: Seq<u8>) -> Seq<u8>;

/// Whether Ed25519 verification accepts `signature` for `message` under `public`.
pub uninterp spec fn ed25519_accepts(public: Seq<u8>, message: Seq<u8>, signature: Seq<u8>) -> bool;

/// The X25519 public key that belongs to a 32-byte secret.
pub uninterp spec fn x25519_public(secret: Seq<u8>) -> Seq<u8>;

/// The X25519 shared secret of one party's secret and the other's public key.
pub uninterp spec fn x25519_shared(secret: Seq<u8>, public: Seq<u8>) -> Seq<u8>;

/// The 32-byte key PBKDF2-HMAC-SHA256 derives from `secret` and `salt`.
pub uninterp spec fn pbkdf2_hmac_sha256(iterations: u32, salt: Seq<u8>, secret: Seq<u8>) -> Seq<u8>;

/// The ciphertext with appended tag that ChaCha20-Poly1305 produces, with no
/// associated data.
pub uninterp spec fn chacha20_poly1305_sealed(key: Seq<u8>, nonce: Seq<u8>, plain: Seq<u8>) -> Seq<
    u8,
>;

/// What ChaCha20-Poly1305 recovers from a ciphertext with appended tag, with
/// no associated data; `None` where authentication fails.
pub uninterp spec fn chacha20_poly1305_opened(
    key: Seq<u8>,
    nonce: Seq<u8>,
    sealed: Seq<u8>,
) -> Option<Seq<u8>>;

/// Draws 32 bytes from the operating system's generator with
/// `rand::rngs::OsRng::try_fill_bytes`.
///
/// Nothing is assumed of the bytes. The call may fail, in which case nothing
/// is returned.
#[verifier::external_body]
pub(crate) fn os_random_key() -> (bytes: Option<Vec<u8>>)
    ensures
        bytes matches Some(b) ==> b@.len() == KEY_LEN,
{
    let mut buf = [0u8; 32];
    match rand::RngCore::try_fill_bytes(&mut rand::rngs::OsRng, &mut buf) {
        Ok(()) => Some(buf.to_vec()),
        Err(_) => None,
    }
}

/// Computes the public half of the Ed25519 key pair that
/// `ring::signature::Ed25519KeyPair::from_seed_unchecked` builds from `seed`,
/// as `KeyPair::public_key` returns it.
///
/// Assumed: the result depends on the seed alone and is 32 bytes long.
#[verifier::external_body]
pub(crate) fn ed25519_public_key(seed: &[u8]) -> (public: Vec<u8>)
    requires
        seed@.len() == KEY_LEN,
    ensures
        public@ == ed25519_public(seed@),
        public@.len() == KEY_LEN,
{
    let pair = ring::signature::Ed25519KeyPair::from_seed_unchecked(seed).unwrap();
    ring::signature::KeyPair::public_key(&pair).as_ref().to_vec()
}

/// Signs `message` with `ring::signature::Ed25519KeyPair::sign`, under the key
/// pair of `seed`.
///
/// Assumed: Ed25519 is deterministic, so the signature depends on the seed
/// and the message alone; it is 64 bytes long; and verification under the
/// pair's own public key accepts it.
#[verifier::external_body]
pub(crate) fn ed25519_sign(seed: &[u8], message: &[u8]) -> (signature: Vec<u8>)
    requires
        seed@.len() == KEY_LEN,
    ensures
        signature@ == ed25519_signature(seed@, message@),
        signature@.len() == SIGNATURE_LEN,
        ed25519_accepts(ed25519_public(seed@), message@, signature@),
{
    let pair = ring::signature::Ed25519KeyPair::from_seed_unchecked(seed).unwrap();
    pair.sign(message).as_ref().to_vec()
}

/// Checks a signature with `ring::signature::UnparsedPublicKey::verify`, for
/// the algorithm `ED25519`.
///
/// Assumed: the verdict depends on the three byte strings alone, and a public
/// key that is not 32 bytes long or a signature that is not 64 bytes long is
/// never accepted.
#[verifier::external_body]
pub(crate) fn ed25519_verify(public: &[u8], message: &[u8], signature: &[u8]) -> (accepted: bool)
    ensures
        accepted == ed25519_accepts(public@, message@, signature@),
        accepted ==> public@.len() == KEY_LEN && signature@.len() == SIGNATURE_LEN,
{
    ring::signature::UnparsedPublicKey::new(&ring::signature::ED25519, public)
        .verify(message, signature)
        .is_ok()
}

/// Computes the X25519 public key of `secret`: `x25519_dalek::PublicKey::from`
/// applied to the `StaticSecret` made of the bytes.
///
/// Assumed: the result depends on the secret alone and is 32 bytes long.
#[verifier::external_body]
pub(crate) fn x25519_public_key(secret: &[u8]) -> (public: Vec<u8>)
    requires
        secret@.len() == KEY_LEN,
    ensures
        public@ == x25519_public(secret@),
        public@.len() == KEY_LEN,
{
    let mut raw = [0u8; 32];
    raw.copy_from_slice(secret);
    let secret = x25519_dalek::StaticSecret::from(raw);
    x25519_dalek::PublicKey::from(&secret).as_bytes().to_vec()
}

/// Runs `x25519_dalek::StaticSecret::diffie_hellman` on `secret` and the
/// peer's public key.
///
/// Assumed: the shared secret depends on the two byte strings alone and is 32
/// bytes long; and the exchange is symmetric: where the peer's public key
/// belongs to some secret, that secret and this side's public key give the
/// same shared secret.
#[verifier::external_body]
pub(crate) fn x25519_diffie_hellman(secret: &[u8], peer_public: &[u8]) -> (shared: Vec<u8>)
    requires
        secret@.len() == KEY_LEN,
        peer_public@.len() == KEY_LEN,
    ensures
        shared@ == x25519_shared(secret@, peer_public@),
        shared@.len() == KEY_LEN,
        forall|peer_secret: Seq<u8>|
            peer_secret.len() == KEY_LEN && #[trigger] x25519_public(peer_secret) == peer_public@
                ==> shared@ == x25519_shared(peer_secret, x25519_public(secret@)),
{
    let mut raw = [0u8; 32];
    raw.copy_from_slice(secret);
    let mut point = [0u8; 32];
    point.copy_from_slice(peer_public);
    let secret = x25519_dalek::StaticSecret::from(raw);
    secret.diffie_hellman(&x25519_dalek::PublicKey::from(point)).as_bytes().to_vec()
}

/// Derives a 32-byte key with `ring::pbkdf2::derive`, for the algorithm
/// `PBKDF2_HMAC_SHA256`.
///
/// Assumed: the key depends on the iteration count, the salt and the secret
/// alone.
#[verifier::external_body]
pub(crate) fn pbkdf2_derive_key(iterations: u32, salt: &[u8], secret: &[u8]) -> (key: Vec<u8>)
    requires
        iterations > 0,
    ensures
        key@ == pbkdf2_hmac_sha256(iterations, salt@, secret@),
        key@.len() == KEY_LEN,
{
    let mut key = [0u8; 32];
    let rounds = std::num::NonZeroU32::new(iterations).unwrap();
    ring::pbkdf2::derive(ring::pbkdf2::PBKDF2_HMAC_SHA256, rounds, salt, secret, &mut key);
    key.to_vec()
}

/// Seals `plain` with `ring::aead::LessSafeKey::seal_in_place_append_tag`, for
/// the algorithm `CHACHA20_POLY1305` and with no associated data.
///
/// Assumed: sealing fails exactly on a plaintext longer than
/// `MAX_PLAINTEXT_LEN`; otherwise the result depends on key, nonce and
/// plaintext alone, is the plaintext's length plus a 16-byte tag, and opens
/// under the same key and nonce to the plaintext.
#[verifier::external_body]
pub(crate) fn chacha20_poly1305_seal(key: &[u8], nonce: &[u8], plain: &[u8]) -> (sealed: Option<
    Vec<u8>,
>)
    requires
        key@.len() == KEY_LEN,
        nonce@.len() == NONCE_LEN,
    ensures
        sealed is Some <==> plain@.len() <= MAX_PLAINTEXT_LEN,
        sealed matches Some(c) ==> {
            &&& c@ == chacha20_poly1305_sealed(key@, nonce@, plain@)
            &&& c@.len() == plain@.len() + TAG_LEN
            &&& chacha20_poly1305_opened(key@, nonce@, c@) == Some(plain@)
        },
{
    let key = ring::aead::UnboundKey::new(&ring::aead::CHACHA20_POLY1305, key).ok()?;
    let nonce = ring::aead::Nonce::try_assume_unique_for_key(nonce).ok()?;
    let mut in_out = plain.to_vec();
    ring::aead::LessSafeKey::new(key)
        .seal_in_place_append_tag(nonce, ring::aead::Aad::empty(), &mut in_out)
        .ok()?;
    Some(in_out)
}

/// Opens `sealed` with `ring::aead::LessSafeKey::open_in_place`, for the
/// algorithm `CHACHA20_POLY1305` and with no associated data.
///
/// Assumed: the outcome depends on key, nonce and input alone; an input
/// shorter than the 16-byte tag never opens; and what opens is 16 bytes
/// shorter than the input.
#[verifier::external_body]
pub(crate) fn chacha20_poly1305_open(key: &[u8], nonce: &[u8], sealed: &[u8]) -> (plain: Option<
    Vec<u8>,
>)
    requires
        key@.len() == KEY_LEN,
        nonce@.len() == NONCE_LEN,
    ensures
        plain is Some <==> chacha20_poly1305_opened(key@, nonce@, sealed@) is Some,
        plain matches Some(p) ==> {
            &&& chacha20_poly1305_opened(key@, nonce@, sealed@) == Some(p@)
            &&& p@.len() + TAG_LEN == sealed@.len()
        },
{
    let key = ring::aead::UnboundKey::new(&ring::aead::CHACHA20_POLY1305, key).ok()?;
    let nonce = ring::aead::Nonce::try_assume_unique_for_key(nonce).ok()?;
    let mut in_out = sealed.to_vec();
    let plain = ring::aead::LessSafeKey::new(key)
        .open_in_place(nonce, ring::aead::Aad::empty(), &mut in_out)
        .ok()?;
    Some(plain.to_vec())
}

} // verus!
