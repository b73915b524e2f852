//! The ways in which an operation on a keyring can fail.

use vstd::prelude::*;

verus! {

/// Why an operation was refused.
#[derive(Clone, Copy, Debug, PartialEq, Eq, Structural)]
pub enum Error {
    /// The operating system's random generator gave no bytes.
    EntropyUnavailable,
    /// A key, seed or secret is not 32 bytes long.
    BadKeyLength,
    /// The plaintext is longer than one nonce can seal.
    PlaintextTooLong,
    /// The envelope did not authenticate under this keyring.
    DecryptionFailed,
    /// The stored keyring is not the expected DER structure.
    Malformed,
    /// The stored keyring starts with another magic number.
    UnknownMagic,
    /// The stored material is not of the secret kind.
    UnknownKind,
    /// The stored keyring has a format version that is not known.
    UnknownVersion,
    /// A stored public key does not belong to the stored secret.
    InconsistentKeys,
}

} // verus!
