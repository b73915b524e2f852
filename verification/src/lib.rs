//! A dual-purpose identity keyring: an Ed25519 key pair for signatures and an
//! X25519 key pair for hybrid public-key encryption, with a fixed binary form
//! for the secret material.

pub mod bytes;
pub mod der;
pub mod envelope;
pub mod error;
pub mod keyring;
pub mod primitives;
pub mod record;

pub use crate::envelope::Encrypted;
pub use crate::error::Error;
pub use crate::keyring::{AlphaPublic, AlphaSecret};
