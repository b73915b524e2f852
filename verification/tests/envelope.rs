use alpha_keyring::envelope::{open, seal, Encrypted, OneTimeSecret};
use alpha_keyring::error::Error;
use alpha_keyring::keyring::AlphaSecret;

fn unhex(text: &str) -> Vec<u8> {
    let digits: Vec<u8> = text
        .bytes()
        .map(|c| match c {
            b'0'..=b'9' => c - b'0',
            b'a'..=b'f' => c - b'a' + 10,
            _ => panic!("not a hex digit"),
        })
        .collect();
    digits.chunks(2).map(|pair| pair[0] * 16 + pair[1]).collect()
}

const ALICE_SECRET: &str = "77076d0a7318a57d3c16c17251b26645df4c2f87ebc0992ab177fba51db92c2a";
const ALICE_PUBLIC: &str = "8520f0098930a754748b7ddcb43ef75a0dbf3a0d26381af4eba4a98eaa9b4e6a";
const BOB_SECRET: &str = "5dab087e624a8a4b79e17f8b83800ee66f3bb1292618b6fd1c2f8b27ff88e0eb";
const BOB_PUBLIC: &str = "de9edb7d7b7dc1b4d35b61c2ece435373f8343c85b78674dadfc7e146f882b4f";
const SHARED: &str = "4a5d9d5ba4ce2de1728e3bf480350f25e07e21c947d19e3376f09b3c1e161742";

fn alice_once() -> OneTimeSecret {
    OneTimeSecret::from_bytes(&unhex(ALICE_SECRET)).unwrap()
}

fn expected_key(shared: &[u8], ephemeral_public: &[u8], recipient_public: &[u8]) -> [u8; 32] {
    let mut input = Vec::new();
    input.extend_from_slice(shared);
    input.extend_from_slice(ephemeral_public);
    input.extend_from_slice(recipient_public);
    let mut key = [0u8; 32];
    ring::pbkdf2::derive(
        ring::pbkdf2::PBKDF2_HMAC_SHA256,
        std::num::NonZeroU32::new(1000).unwrap(),
        &[0],
        &input,
        &mut key,
    );
    key
}

fn expected_data(key: &[u8; 32], plain: &[u8]) -> Vec<u8> {
    let key = ring::aead::LessSafeKey::new(
        ring::aead::UnboundKey::new(&ring::aead::CHACHA20_POLY1305, key).unwrap(),
    );
    let nonce = ring::aead::Nonce::assume_unique_for_key([0, 0, 0, 0, 0, 0, 0, 0, 0, 0, 0, 1]);
    let mut in_out = plain.to_vec();
    key.seal_in_place_append_tag(nonce, ring::aead::Aad::empty(), &mut in_out).unwrap();
    in_out
}

#[test]
fn seal_carries_the_public_key_of_the_one_time_secret() {
    let env = seal(b"hello", &unhex(BOB_PUBLIC), alice_once()).unwrap();
    assert_eq!(env.ephemeral_pubkey, unhex(ALICE_PUBLIC));
}

#[test]
fn seal_derives_the_key_from_shared_secret_and_both_public_keys() {
    let plain = b"the order of the three parts matters";
    let env = seal(plain, &unhex(BOB_PUBLIC), alice_once()).unwrap();
    let key = expected_key(&unhex(SHARED), &unhex(ALICE_PUBLIC), &unhex(BOB_PUBLIC));
    assert_eq!(env.data, expected_data(&key, plain));
    let swapped = expected_key(&unhex(SHARED), &unhex(BOB_PUBLIC), &unhex(ALICE_PUBLIC));
    assert_ne!(env.data, expected_data(&swapped, plain));
}

#[test]
fn seal_appends_a_tag_of_16_bytes() {
    let env = seal(b"", &unhex(BOB_PUBLIC), alice_once()).unwrap();
    assert_eq!(env.data.len(), 16);
    let env = seal(&[0u8; 100], &unhex(BOB_PUBLIC), alice_once()).unwrap();
    assert_eq!(env.data.len(), 116);
    assert_ne!(&env.data[..100], &[0u8; 100][..]);
}

#[test]
fn seal_is_a_function_of_its_arguments() {
    let one = seal(b"hello", &unhex(BOB_PUBLIC), alice_once()).unwrap();
    let two = seal(b"hello", &unhex(BOB_PUBLIC), alice_once()).unwrap();
    assert_eq!(one.ephemeral_pubkey, two.ephemeral_pubkey);
    assert_eq!(one.data, two.data);
}

#[test]
fn seal_refuses_recipient_keys_of_other_lengths() {
    assert_eq!(seal(b"x", &[1u8; 31], alice_once()).err(), Some(Error::BadKeyLength));
    assert_eq!(seal(b"x", &[1u8; 33], alice_once()).err(), Some(Error::BadKeyLength));
    assert_eq!(seal(b"x", &[], alice_once()).err(), Some(Error::BadKeyLength));
}

#[test]
fn one_time_secret_has_32_bytes() {
    assert_eq!(OneTimeSecret::from_bytes(&[1u8; 31]).err(), Some(Error::BadKeyLength));
    assert_eq!(OneTimeSecret::from_bytes(&[1u8; 33]).err(), Some(Error::BadKeyLength));
    assert_eq!(OneTimeSecret::from_bytes(&[]).err(), Some(Error::BadKeyLength));
    assert!(OneTimeSecret::from_bytes(&[1u8; 32]).is_ok());
}

#[test]
fn generated_one_time_secrets_differ() {
    let first = seal(b"hello", &unhex(BOB_PUBLIC), OneTimeSecret::generate().unwrap()).unwrap();
    let second = seal(b"hello", &unhex(BOB_PUBLIC), OneTimeSecret::generate().unwrap()).unwrap();
    assert_ne!(first.ephemeral_pubkey, second.ephemeral_pubkey);
    assert_ne!(first.data, second.data);
    assert_eq!(open(&first, &unhex(BOB_SECRET), &unhex(BOB_PUBLIC)).unwrap(), b"hello".to_vec());
    assert_eq!(open(&second, &unhex(BOB_SECRET), &unhex(BOB_PUBLIC)).unwrap(), b"hello".to_vec());
}

#[test]
fn open_recovers_what_seal_sealed() {
    let env = seal(b"hello", &unhex(BOB_PUBLIC), alice_once()).unwrap();
    assert_eq!(open(&env, &unhex(BOB_SECRET), &unhex(BOB_PUBLIC)).unwrap(), b"hello".to_vec());
}

#[test]
fn open_uses_the_recipients_own_public_key() {
    let env = seal(b"hello", &unhex(BOB_PUBLIC), alice_once()).unwrap();
    assert_eq!(
        open(&env, &unhex(BOB_SECRET), &unhex(ALICE_PUBLIC)),
        Err(Error::DecryptionFailed)
    );
}

#[test]
fn open_refuses_keys_of_other_lengths() {
    let env = seal(b"hello", &unhex(BOB_PUBLIC), alice_once()).unwrap();
    assert_eq!(open(&env, &[0u8; 16], &unhex(BOB_PUBLIC)), Err(Error::BadKeyLength));
    assert_eq!(open(&env, &unhex(BOB_SECRET), &[0u8; 40]), Err(Error::BadKeyLength));
}

#[test]
fn open_fails_on_a_short_envelope() {
    let short_key = Encrypted { ephemeral_pubkey: vec![1u8; 31], data: vec![0u8; 32] };
    assert_eq!(
        open(&short_key, &unhex(BOB_SECRET), &unhex(BOB_PUBLIC)),
        Err(Error::DecryptionFailed)
    );
    let short_data = Encrypted { ephemeral_pubkey: unhex(ALICE_PUBLIC), data: vec![0u8; 15] };
    assert_eq!(
        open(&short_data, &unhex(BOB_SECRET), &unhex(BOB_PUBLIC)),
        Err(Error::DecryptionFailed)
    );
}

#[test]
fn keyring_decrypts_what_was_sealed_to_its_public_key() {
    let bob = AlphaSecret::from_secrets(&[3u8; 32], &unhex(BOB_SECRET)).unwrap();
    let env = seal(b"hello", bob.public_key().encryption_public_key(), alice_once()).unwrap();
    assert_eq!(bob.decrypt(&env, bob.public_key()).unwrap(), b"hello".to_vec());
    let expected = expected_data(
        &expected_key(&unhex(SHARED), &unhex(ALICE_PUBLIC), &unhex(BOB_PUBLIC)),
        b"hello",
    );
    assert_eq!(env.data, expected);
}
