use alpha_keyring::bytes::{append_bytes, bytes_equal, copy_bytes};
use alpha_keyring::der::{read_element, read_integer};
use alpha_keyring::error::Error;
use alpha_keyring::record::{decode_record, encode_record, SecretRecord};

fn sample() -> SecretRecord {
    SecretRecord {
        signing_seed: vec![0x11; 32],
        signing_public: vec![0x22; 32],
        agreement_secret: vec![0x33; 32],
        agreement_public: vec![0x44; 32],
    }
}

fn written(magic: i64, kind: u8, version: i64, keys: [&[u8]; 4]) -> Vec<u8> {
    yasna::construct_der(|writer| {
        writer.write_sequence(|writer| {
            writer.next().write_i64(magic);
            writer.next().write_u8(kind);
            writer.next().write_i64(version);
            for key in keys.iter() {
                writer.next().write_bytes(key);
            }
        });
    })
}

#[test]
fn record_is_read_back() {
    let bytes = encode_record(&sample());
    assert_eq!(bytes.len(), 153);
    let record = decode_record(&bytes).unwrap();
    assert_eq!(record.signing_seed, vec![0x11; 32]);
    assert_eq!(record.signing_public, vec![0x22; 32]);
    assert_eq!(record.agreement_secret, vec![0x33; 32]);
    assert_eq!(record.agreement_public, vec![0x44; 32]);
}

#[test]
fn record_is_written_as_by_yasna() {
    let expected = written(0xfe73ba2003, 1, 1, [&[0x11; 32], &[0x22; 32], &[0x33; 32], &[0x44; 32]]);
    assert_eq!(encode_record(&sample()), expected);
}

#[test]
fn record_with_long_keys_is_written_with_long_lengths() {
    let record = SecretRecord {
        signing_seed: vec![1; 200],
        signing_public: vec![2; 300],
        agreement_secret: vec![],
        agreement_public: vec![4; 70_000],
    };
    let expected = written(0xfe73ba2003, 1, 1, [&[1; 200], &[2; 300], &[], &[4; 70_000]]);
    assert_eq!(encode_record(&record), expected);
}

#[test]
fn decode_refuses_another_magic_number() {
    let bytes = written(0xfe73ba2004, 1, 1, [&[0; 32], &[0; 32], &[0; 32], &[0; 32]]);
    assert_eq!(decode_record(&bytes).err(), Some(Error::UnknownMagic));
    let bytes = written(-1, 1, 1, [&[0; 32], &[0; 32], &[0; 32], &[0; 32]]);
    assert_eq!(decode_record(&bytes).err(), Some(Error::UnknownMagic));
}

#[test]
fn decode_refuses_another_kind() {
    let bytes = written(0xfe73ba2003, 0, 1, [&[0; 32], &[0; 32], &[0; 32], &[0; 32]]);
    assert_eq!(decode_record(&bytes).err(), Some(Error::UnknownKind));
    let bytes = written(0xfe73ba2003, 200, 1, [&[0; 32], &[0; 32], &[0; 32], &[0; 32]]);
    assert_eq!(decode_record(&bytes).err(), Some(Error::UnknownKind));
}

#[test]
fn decode_refuses_another_version() {
    let bytes = written(0xfe73ba2003, 1, 2, [&[0; 32], &[0; 32], &[0; 32], &[0; 32]]);
    assert_eq!(decode_record(&bytes).err(), Some(Error::UnknownVersion));
    let bytes = written(0xfe73ba2003, 1, 0, [&[0; 32], &[0; 32], &[0; 32], &[0; 32]]);
    assert_eq!(decode_record(&bytes).err(), Some(Error::UnknownVersion));
}

#[test]
fn decode_checks_magic_before_kind_and_kind_before_version() {
    let bytes = written(7, 9, 9, [&[0; 32], &[0; 32], &[0; 32], &[0; 32]]);
    assert_eq!(decode_record(&bytes).err(), Some(Error::UnknownMagic));
    let bytes = written(0xfe73ba2003, 9, 9, [&[0; 32], &[0; 32], &[0; 32], &[0; 32]]);
    assert_eq!(decode_record(&bytes).err(), Some(Error::UnknownKind));
    let bytes = written(7, 1, 1, [&[0; 31], &[0; 32], &[0; 32], &[0; 32]]);
    assert_eq!(decode_record(&bytes).err(), Some(Error::UnknownMagic));
}

#[test]
fn decode_refuses_keys_of_other_lengths() {
    let bytes = written(0xfe73ba2003, 1, 1, [&[0; 31], &[0; 32], &[0; 32], &[0; 32]]);
    assert_eq!(decode_record(&bytes).err(), Some(Error::BadKeyLength));
    let bytes = written(0xfe73ba2003, 1, 1, [&[0; 32], &[0; 32], &[0; 32], &[0; 33]]);
    assert_eq!(decode_record(&bytes).err(), Some(Error::BadKeyLength));
    let bytes = written(0xfe73ba2003, 1, 1, [&[0; 32], &[], &[0; 32], &[0; 32]]);
    assert_eq!(decode_record(&bytes).err(), Some(Error::BadKeyLength));
    let bytes = written(0xfe73ba2003, 1, 1, [&[0; 32], &[0; 32], &[0; 300], &[0; 32]]);
    assert_eq!(decode_record(&bytes).err(), Some(Error::BadKeyLength));
}

#[test]
fn decode_refuses_missing_and_extra_elements() {
    let three = yasna::construct_der(|writer| {
        writer.write_sequence(|writer| {
            writer.next().write_i64(0xfe73ba2003);
            writer.next().write_u8(1);
            writer.next().write_i64(1);
            writer.next().write_bytes(&[0; 32]);
            writer.next().write_bytes(&[0; 32]);
            writer.next().write_bytes(&[0; 32]);
        });
    });
    assert_eq!(decode_record(&three).err(), Some(Error::Malformed));
    let five = yasna::construct_der(|writer| {
        writer.write_sequence(|writer| {
            writer.next().write_i64(0xfe73ba2003);
            writer.next().write_u8(1);
            writer.next().write_i64(1);
            for _ in 0..5 {
                writer.next().write_bytes(&[0; 32]);
            }
        });
    });
    assert_eq!(decode_record(&five).err(), Some(Error::Malformed));
}

#[test]
fn decode_refuses_other_types_of_element() {
    let not_a_sequence = yasna::construct_der(|writer| writer.write_bytes(&[0; 150]));
    assert_eq!(decode_record(&not_a_sequence).err(), Some(Error::Malformed));
    let text_for_magic = yasna::construct_der(|writer| {
        writer.write_sequence(|writer| {
            writer.next().write_bytes(&[0xfe, 0x73, 0xba, 0x20, 0x03]);
            writer.next().write_u8(1);
            writer.next().write_i64(1);
            for _ in 0..4 {
                writer.next().write_bytes(&[0; 32]);
            }
        });
    });
    assert_eq!(decode_record(&text_for_magic).err(), Some(Error::Malformed));
    let number_for_key = yasna::construct_der(|writer| {
        writer.write_sequence(|writer| {
            writer.next().write_i64(0xfe73ba2003);
            writer.next().write_u8(1);
            writer.next().write_i64(1);
            writer.next().write_i64(5);
            for _ in 0..3 {
                writer.next().write_bytes(&[0; 32]);
            }
        });
    });
    assert_eq!(decode_record(&number_for_key).err(), Some(Error::Malformed));
}

#[test]
fn decode_refuses_truncated_and_padded_input() {
    let bytes = encode_record(&sample());
    for len in [0usize, 1, 2, 3, 10, 17, 18, 100, 152] {
        assert_eq!(decode_record(&bytes[..len]).err(), Some(Error::Malformed));
    }
    let mut padded = bytes.clone();
    padded.push(0);
    assert_eq!(decode_record(&padded).err(), Some(Error::Malformed));
}

#[test]
fn decode_refuses_a_length_that_is_not_the_shortest() {
    let mut bytes = vec![0x30, 0x82, 0x00, 0x96];
    bytes.extend_from_slice(&encode_record(&sample())[3..]);
    assert_eq!(decode_record(&bytes).err(), Some(Error::Malformed));
    let mut magic_padded = vec![0x30, 0x81, 0x97, 0x02, 0x07, 0x00];
    magic_padded.extend_from_slice(&encode_record(&sample())[5..]);
    assert_eq!(decode_record(&magic_padded).err(), Some(Error::Malformed));
}

#[test]
fn element_is_found_with_its_bounds() {
    let bytes = [0x04, 0x03, 1, 2, 3, 0x02, 0x01, 0x07];
    let first = read_element(&bytes, 0).unwrap();
    assert_eq!((first.tag, first.start, first.end), (0x04, 2, 5));
    let second = read_element(&bytes, 5).unwrap();
    assert_eq!((second.tag, second.start, second.end), (0x02, 7, 8));
    assert!(read_element(&bytes, 8).is_none());
    assert!(read_element(&bytes, 100).is_none());
    assert!(read_element(&bytes, 6).is_none());
}

#[test]
fn element_lengths_of_one_and_two_octets() {
    let mut medium = vec![0x04, 0x81, 0x80];
    medium.extend_from_slice(&[0u8; 128]);
    let e = read_element(&medium, 0).unwrap();
    assert_eq!((e.start, e.end), (3, 131));
    let mut large = vec![0x04, 0x82, 0x01, 0x00];
    large.extend_from_slice(&[0u8; 256]);
    let e = read_element(&large, 0).unwrap();
    assert_eq!((e.start, e.end), (4, 260));
    let empty = [0x04, 0x00];
    let e = read_element(&empty, 0).unwrap();
    assert_eq!((e.start, e.end), (2, 2));
}

#[test]
fn element_with_bad_length_is_refused() {
    assert!(read_element(&[0x04], 0).is_none());
    assert!(read_element(&[0x04, 0x02, 1], 0).is_none());
    assert!(read_element(&[0x04, 0x81, 0x05, 1, 2, 3, 4, 5], 0).is_none());
    assert!(read_element(&[0x04, 0x82, 0x00, 0x80], 0).is_none());
    assert!(read_element(&[0x04, 0x80, 0, 0], 0).is_none());
    assert!(read_element(&[0x04, 0x83, 0, 0, 1, 0], 0).is_none());
    assert!(read_element(&[0x04, 0x81], 0).is_none());
    assert!(read_element(&[0x04, 0x82, 0x01], 0).is_none());
    assert!(read_element(&[0x1f, 0x01, 0x00], 0).is_none());
    assert!(read_element(&[0x3f, 0x01, 0x00], 0).is_none());
}

#[test]
fn integer_values() {
    assert_eq!(read_integer(&[0x00]), Some(0));
    assert_eq!(read_integer(&[0x01]), Some(1));
    assert_eq!(read_integer(&[0x7f]), Some(127));
    assert_eq!(read_integer(&[0x80]), Some(-128));
    assert_eq!(read_integer(&[0xff]), Some(-1));
    assert_eq!(read_integer(&[0x00, 0x80]), Some(128));
    assert_eq!(read_integer(&[0xff, 0x7f]), Some(-129));
    assert_eq!(read_integer(&[0x49, 0x96, 0x02, 0xd2]), Some(1234567890));
    assert_eq!(read_integer(&[0x00, 0xfe, 0x73, 0xba, 0x20, 0x03]), Some(0xfe73ba2003));
    assert_eq!(read_integer(&[0x7f, 0xff, 0xff, 0xff, 0xff, 0xff, 0xff, 0xff]), Some(i64::MAX));
    assert_eq!(read_integer(&[0x80, 0, 0, 0, 0, 0, 0, 0]), Some(i64::MIN));
}

#[test]
fn integer_that_is_not_in_shortest_form_is_refused() {
    assert_eq!(read_integer(&[]), None);
    assert_eq!(read_integer(&[0x00, 0x01]), None);
    assert_eq!(read_integer(&[0x00, 0x7f]), None);
    assert_eq!(read_integer(&[0xff, 0x80]), None);
    assert_eq!(read_integer(&[0xff, 0xff]), None);
    assert_eq!(read_integer(&[0x00, 0x80, 0, 0, 0, 0, 0, 0, 0]), None);
}

#[test]
fn integers_are_read_as_yasna_writes_them() {
    for value in [0i64, 1, -1, 127, 128, -128, -129, 255, 256, 65535, -65536, 0xfe73ba2003, i64::MAX, i64::MIN] {
        let der = yasna::construct_der(|writer| writer.write_i64(value));
        let element = read_element(&der, 0).unwrap();
        assert_eq!(element.tag, 0x02);
        assert_eq!(element.end, der.len());
        assert_eq!(read_integer(&der[element.start..element.end]), Some(value));
    }
}

#[test]
fn bytes_are_appended_compared_and_copied() {
    let mut all = vec![1u8, 2];
    append_bytes(&mut all, &[3, 4, 5]);
    append_bytes(&mut all, &[]);
    assert_eq!(all, vec![1, 2, 3, 4, 5]);
    assert!(bytes_equal(&all, &[1, 2, 3, 4, 5]));
    assert!(!bytes_equal(&all, &[1, 2, 3, 4, 6]));
    assert!(!bytes_equal(&all, &[1, 2, 3, 4]));
    assert!(bytes_equal(&[], &[]));
    assert_eq!(copy_bytes(&all), all);
}
