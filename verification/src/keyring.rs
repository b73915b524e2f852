//! The keyring of one party: an Ed25519 key pair for signing and an X25519
//! key pair for key agreement.
//!
//! `AlphaSecret` holds the two secrets and a copy of its public half;
//! `AlphaPublic` holds the two public keys. Both are immutable once built, and
//! the public half inside a secret keyring always belongs to its secrets.

use vstd::prelude::*;
use crate::bytes::{bytes_equal, copy_bytes};
use crate::envelope::{
    is_sealing, open, opened_envelope, opens_for_recipient, seal, Encrypted, OneTimeSecret,
};
use crate::error::Error;
use crate::primitives::{
    ed25519_accepts, ed25519_public, ed25519_public_key, ed25519_sign, ed25519_signature,
    ed25519_verify, os_random_key, x25519_public, x25519_public_key, KEY_LEN, MAX_PLAINTEXT_LEN,
    SIGNATURE_LEN, TAG_LEN,
};
use crate::record::{
    decode_record, decoded_record, encode_record, encoded_record, lemma_record_round_trip,
    RecordView, SecretRecord, RECORD_LEN,
};

verus! {

/// A public keyring as mathematical sequences.
pub struct PublicView {
    pub signing: Seq<u8>,
    pub agreement: Seq<u8>,
}

/// A secret keyring as mathematical sequences. The public half is not part of
/// it: it follows from the two secrets.
pub struct SecretView {
    pub signing_seed: Seq<u8>,
    pub agreement_secret: Seq<u8>,
}

impl SecretView {
    /// Whether both secrets are 32 bytes long.
    pub open spec fn has_key_lengths(self) -> bool {
        self.signing_seed.len() == KEY_LEN && self.agreement_secret.len() == KEY_LEN
    }

    /// The public keyring that belongs to the secrets.
    pub open spec fn public(self) -> PublicView {
        PublicView {
            signing: ed25519_public(self.signing_seed),
            agreement: x25519_public(self.agreement_secret),
        }
    }

    /// The record that is stored for the keyring.
    pub open spec fn record(self) -> RecordView {
        RecordView {
            signing_seed: self.signing_seed,
            signing_public: self.public().signing,
            agreement_secret: self.agreement_secret,
            agreement_public: self.public().agreement,
        }
    }
}

/// Whether the public keys of a record are those of its secrets.
pub open spec fn is_consistent(record: RecordView) -> bool {
    record.signing_public == ed25519_public(record.signing_seed) && record.agreement_public
        == x25519_public(record.agreement_secret)
}

/// The secret keyring that a record holds.
pub open spec fn secrets_of(record: RecordView) -> SecretView {
    SecretView { signing_seed: record.signing_seed, agreement_secret: record.agreement_secret }
}

/// What is read from the stored form of a keyring are its own secrets, with
/// the public keys that belong to them. Signatures and opened envelopes
/// depend on the secrets alone, so the keyring that is read back signs and
/// decrypts as the one that was written.
pub proof fn lemma_stored_keyring_is_read_back(stored: SecretView)
    requires
        stored.record().has_key_lengths(),
    ensures
        decoded_record(encoded_record(stored.record())) == Ok::<RecordView, Error>(
            stored.record(),
        ),
        is_consistent(stored.record()),
        secrets_of(stored.record()) == stored,
{
    lemma_record_round_trip(stored.record());
}

/// An envelope that opens for whoever holds the recipient's agreement key is
/// opened by each keyring that has this key: what was sealed to a keyring's
/// public half is what the keyring decrypts.
pub proof fn lemma_sealed_envelope_is_opened(
    recipient: SecretView,
    plain: Seq<u8>,
    ephemeral_pubkey: Seq<u8>,
    data: Seq<u8>,
)
    requires
        recipient.has_key_lengths(),
        opens_for_recipient(plain, recipient.public().agreement, ephemeral_pubkey, data),
    ensures
        opened_envelope(recipient.agreement_secret, ephemeral_pubkey, data) == Some(plain),
{
}

/// Public part of a keyring:
///  * an Ed25519 key for verifying signatures
///  * an X25519 key for agreement and encryption
pub struct AlphaPublic {
    ed25519_pubkey: Vec<u8>,
    x25519_pubkey: Vec<u8>,
}

impl View for AlphaPublic {
    type V = PublicView;

    closed spec fn view(&self) -> PublicView {
        PublicView { signing: self.ed25519_pubkey@, agreement: self.x25519_pubkey@ }
    }
}

impl AlphaPublic {
    #[verifier::type_invariant]
    spec fn well_formed(&self) -> bool {
        self.ed25519_pubkey@.len() == KEY_LEN && self.x25519_pubkey@.len() == KEY_LEN
    }

    /// Makes a public keyring of the two keys of a peer. Each must be 32
    /// bytes long.
    pub fn from_bytes(signing: &[u8], agreement: &[u8]) -> (out: Result<AlphaPublic, Error>)
        ensures
            match out {
                Ok(public) => public@ == (PublicView { signing: signing@, agreement: agreement@ })
                    && signing@.len() == KEY_LEN && agreement@.len() == KEY_LEN,
                Err(e) => e == Error::BadKeyLength && (signing@.len() != KEY_LEN
                    || agreement@.len() != KEY_LEN),
            },
    {
        if signing.len() != KEY_LEN || agreement.len() != KEY_LEN {
            return Err(Error::BadKeyLength);
        }
        Ok(AlphaPublic { ed25519_pubkey: copy_bytes(signing), x25519_pubkey: copy_bytes(agreement) })
    }

    /// The 32 bytes of the Ed25519 public key.
    pub fn signing_public_key(&self) -> (key: &[u8])
        ensures
            key@ == self@.signing,
            key@.len() == KEY_LEN,
    {
        proof {
            use_type_invariant(self);
        }
        self.ed25519_pubkey.as_slice()
    }

    /// The 32 bytes of the X25519 public key.
    pub fn encryption_public_key(&self) -> (key: &[u8])
        ensures
            key@ == self@.agreement,
            key@.len() == KEY_LEN,
    {
        proof {
            use_type_invariant(self);
        }
        self.x25519_pubkey.as_slice()
    }

    /// Tells whether `signature` is this keyring's signature of `bytes`.
    ///
    /// Never fails: a signature that is malformed, such as one that is not 64
    /// bytes long, is simply not accepted.
    pub fn verify(&self, bytes: &[u8], signature: &[u8]) -> (accepted: bool)
        ensures
            accepted == ed25519_accepts(self@.signing, bytes@, signature@),
            signature@.len() != SIGNATURE_LEN ==> !accepted,
    {
        ed25519_verify(self.ed25519_pubkey.as_slice(), bytes, signature)
    }
}

/// Secret part of a keyring:
///  * the seed of an Ed25519 key pair for signing
///  * an X25519 secret for agreement and decryption
///  * the public keyring that belongs to them
pub struct AlphaSecret {
    /// The key pair is made of the seed whenever it is needed, so the seed is
    /// all that is kept and stored.
    ed25519_seed: Vec<u8>,
    /// The static X25519 secret.
    x25519_secret: Vec<u8>,
    /// The public keys for this secret.
    pubkey: AlphaPublic,
}

impl View for AlphaSecret {
    type V = SecretView;

    closed spec fn view(&self) -> SecretView {
        SecretView { signing_seed: self.ed25519_seed@, agreement_secret: self.x25519_secret@ }
    }
}

impl AlphaSecret {
    #[verifier::type_invariant]
    spec fn well_formed(&self) -> bool {
        &&& self.ed25519_seed@.len() == KEY_LEN
        &&& self.x25519_secret@.len() == KEY_LEN
        &&& self.pubkey.ed25519_pubkey@ == ed25519_public(self.ed25519_seed@)
        &&& self.pubkey.x25519_pubkey@ == x25519_public(self.x25519_secret@)
    }

    /// Makes a keyring with a fresh Ed25519 seed and a fresh X25519 secret,
    /// each drawn on its own from the operating system's random generator.
    ///
    /// Fails only where the generator gives nothing; no keyring is made of
    /// weaker randomness.
    pub fn new() -> (out: Result<AlphaSecret, Error>)
        ensures
            match out {
                Ok(secret) => secret@.has_key_lengths(),
                Err(e) => e == Error::EntropyUnavailable,
            },
    {
        let signing_seed: Vec<u8> = match os_random_key() {
            None => { return Err(Error::EntropyUnavailable); },
            Some(bytes) => bytes,
        };
        let agreement_secret: Vec<u8> = match os_random_key() {
            None => { return Err(Error::EntropyUnavailable); },
            Some(bytes) => bytes,
        };
        AlphaSecret::from_secrets(signing_seed.as_slice(), agreement_secret.as_slice())
    }

    /// Makes the keyring of a given Ed25519 seed and X25519 secret. Each must
    /// be 32 bytes long.
    pub fn from_secrets(signing_seed: &[u8], agreement_secret: &[u8]) -> (out: Result<
        AlphaSecret,
        Error,
    >)
        ensures
            match out {
                Ok(secret) => secret@ == (SecretView {
                    signing_seed: signing_seed@,
                    agreement_secret: agreement_secret@,
                }) && secret@.has_key_lengths(),
                Err(e) => e == Error::BadKeyLength && (signing_seed@.len() != KEY_LEN
                    || agreement_secret@.len() != KEY_LEN),
            },
    {
        if signing_seed.len() != KEY_LEN || agreement_secret.len() != KEY_LEN {
            return Err(Error::BadKeyLength);
        }
        let ed25519_pubkey: Vec<u8> = ed25519_public_key(signing_seed);
        let x25519_pubkey: Vec<u8> = x25519_public_key(agreement_secret);
        Ok(
            AlphaSecret {
                ed25519_seed: copy_bytes(signing_seed),
                x25519_secret: copy_bytes(agreement_secret),
                pubkey: AlphaPublic { ed25519_pubkey, x25519_pubkey },
            },
        )
    }

    /// Returns the public key parts for this secret.
    pub fn public_key(&self) -> (public: &AlphaPublic)
        ensures
            public@ == self@.public(),
            self@.has_key_lengths(),
            self@.record().has_key_lengths(),
    {
        proof {
            use_type_invariant(self);
            use_type_invariant(&self.pubkey);
        }
        &self.pubkey
    }

    /// Signs `bytes`. The signature is 64 bytes long, is the same whenever
    /// the same bytes are signed, and is accepted by this keyring's public
    /// half.
    pub fn sign(&self, bytes: &[u8]) -> (signature: Vec<u8>)
        ensures
            signature@ == ed25519_signature(self@.signing_seed, bytes@),
            signature@.len() == SIGNATURE_LEN,
            ed25519_accepts(self@.public().signing, bytes@, signature@),
    {
        proof {
            use_type_invariant(self);
        }
        ed25519_sign(self.ed25519_seed.as_slice(), bytes)
    }

    /// Opens an envelope that was sealed to this keyring.
    ///
    /// The sender's keyring plays no part: the scheme does not authenticate
    /// the sender, and whoever knows this keyring's public half can make an
    /// envelope that opens.
    ///
    /// The one failure is `DecryptionFailed`: on a one-time key of fewer than
    /// 32 bytes and on an envelope that does not authenticate.
    pub fn decrypt(&self, enc_bytes: &Encrypted, _sender_pubkey: &AlphaPublic) -> (out: Result<
        Vec<u8>,
        Error,
    >)
        ensures
            match out {
                Ok(plain) => opened_envelope(
                    self@.agreement_secret,
                    enc_bytes.ephemeral_pubkey@,
                    enc_bytes.data@,
                ) == Some(plain@) && plain@.len() + TAG_LEN == enc_bytes.data@.len(),
                Err(e) => e == Error::DecryptionFailed && opened_envelope(
                    self@.agreement_secret,
                    enc_bytes.ephemeral_pubkey@,
                    enc_bytes.data@,
                ) is None,
            },
            enc_bytes.ephemeral_pubkey@.len() < KEY_LEN || enc_bytes.data@.len() < TAG_LEN
                ==> out is Err,
    {
        proof {
            use_type_invariant(self);
            use_type_invariant(&self.pubkey);
        }
        open(enc_bytes, self.x25519_secret.as_slice(), self.pubkey.x25519_pubkey.as_slice())
    }

    /// Seals `plain_bytes` to the holder of `peer_public`, under a one-time
    /// key that is drawn for this call and dropped with it.
    ///
    /// This keyring plays no part: the envelope does not say who sealed it.
    ///
    /// A plaintext that is too long is refused before anything is drawn.
    /// Otherwise the call fails only where the random generator gives
    /// nothing. An envelope that is returned is the sealing under some
    /// one-time secret, and every keyring with the peer's agreement key opens
    /// it to the plaintext.
    pub fn encrypt(&self, plain_bytes: &[u8], peer_public: &AlphaPublic) -> (out: Result<
        Encrypted,
        Error,
    >)
        ensures
            match out {
                Ok(envelope) => {
                    &&& plain_bytes@.len() <= MAX_PLAINTEXT_LEN
                    &&& exists|ephemeral_secret: Seq<u8>| #[trigger]
                        is_sealing(
                            ephemeral_secret,
                            plain_bytes@,
                            peer_public@.agreement,
                            envelope.ephemeral_pubkey@,
                            envelope.data@,
                        )
                    &&& envelope.ephemeral_pubkey@.len() == KEY_LEN
                    &&& envelope.data@.len() == plain_bytes@.len() + TAG_LEN
                    &&& opens_for_recipient(
                        plain_bytes@,
                        peer_public@.agreement,
                        envelope.ephemeral_pubkey@,
                        envelope.data@,
                    )
                },
                Err(e) => if plain_bytes@.len() > MAX_PLAINTEXT_LEN {
                    e == Error::PlaintextTooLong
                } else {
                    e == Error::EntropyUnavailable
                },
            },
    {
        proof {
            use_type_invariant(peer_public);
        }
        if plain_bytes.len() as u64 > MAX_PLAINTEXT_LEN {
            return Err(Error::PlaintextTooLong);
        }
        let ephemeral_secret = match OneTimeSecret::generate() {
            Err(e) => { return Err(e); },
            Ok(secret) => secret,
        };
        let ghost drawn: Seq<u8> = ephemeral_secret@;
        let out = seal(plain_bytes, peer_public.x25519_pubkey.as_slice(), ephemeral_secret);
        proof {
            if let Ok(envelope) = &out {
                assert(is_sealing(
                    drawn,
                    plain_bytes@,
                    peer_public@.agreement,
                    envelope.ephemeral_pubkey@,
                    envelope.data@,
                ));
            }
        }
        out
    }

    /// Writes the keyring in its stored form: 153 bytes of DER.
    pub fn serialize(&self) -> (out: Vec<u8>)
        ensures
            out@ == encoded_record(self@.record()),
            out@.len() == RECORD_LEN,
            self@.record().has_key_lengths(),
            decoded_record(out@) == Ok::<RecordView, Error>(self@.record()),
    {
        proof {
            use_type_invariant(self);
            use_type_invariant(&self.pubkey);
            lemma_record_round_trip(self@.record());
        }
        let record = SecretRecord {
            signing_seed: copy_bytes(self.ed25519_seed.as_slice()),
            signing_public: copy_bytes(self.pubkey.ed25519_pubkey.as_slice()),
            agreement_secret: copy_bytes(self.x25519_secret.as_slice()),
            agreement_public: copy_bytes(self.pubkey.x25519_pubkey.as_slice()),
        };
        encode_record(&record)
    }

    /// Reads a keyring from its stored form.
    ///
    /// The input is refused with the error of `decoded_record` where it is
    /// not a well-formed record, and with `InconsistentKeys` where a stored
    /// public key is not the one that belongs to the stored secret. The key
    /// pairs of the keyring are made of the stored secrets alone.
    pub fn deserialize(bytes: &[u8]) -> (out: Result<AlphaSecret, Error>)
        ensures
            match out {
                Ok(secret) => decoded_record(bytes@) == Ok::<RecordView, Error>(secret@.record())
                    && secret@.has_key_lengths() && bytes@ == encoded_record(secret@.record()),
                Err(e) => match decoded_record(bytes@) {
                    Err(refusal) => e == refusal,
                    Ok(record) => e == Error::InconsistentKeys && !is_consistent(record),
                },
            },
            forall|stored: SecretView|
                stored.record().has_key_lengths() && bytes@ == #[trigger] encoded_record(
                    stored.record(),
                ) ==> (out matches Ok(secret) && secret@ == stored),
    {
        proof {
            assert forall|stored: SecretView|
                stored.record().has_key_lengths() && bytes@ == #[trigger] encoded_record(
                    stored.record(),
                ) implies decoded_record(bytes@) == Ok::<RecordView, Error>(stored.record()) by {
                lemma_record_round_trip(stored.record());
            }
        }
        let record = match decode_record(bytes) {
            Err(e) => { return Err(e); },
            Ok(record) => record,
        };
        let secret = match AlphaSecret::from_secrets(
            record.signing_seed.as_slice(),
            record.agreement_secret.as_slice(),
        ) {
            Err(e) => { return Err(e); },
            Ok(secret) => secret,
        };
        proof {
            use_type_invariant(&secret);
        }
        if !bytes_equal(secret.pubkey.ed25519_pubkey.as_slice(), record.signing_public.as_slice())
            || !bytes_equal(
            secret.pubkey.x25519_pubkey.as_slice(),
            record.agreement_public.as_slice(),
        ) {
            return Err(Error::InconsistentKeys);
        }
        Ok(secret)
    }
}

} // verus!
