//! The binary form of a secret keyring: a DER SEQUENCE of the magic number,
//! the kind of material, the format version and four OCTET STRINGs of 32
//! bytes each: signing seed, signing public key, agreement secret and
//! agreement public key.

use vstd::prelude::*;
use crate::bytes::{append_bytes, copy_bytes};
use crate::der::{
    be_bytes, be_signed, der_integer, der_length, der_octet_string, der_sequence, element_at,
    element_content, integer_len, integer_value, lemma_element_is_canonical,
    lemma_integer_is_canonical, read_element, read_integer, twos_complement,
    write_integer, write_octet_string, write_sequence, write_small_integer, TAG_INTEGER,
    TAG_OCTET_STRING, TAG_SEQUENCE,
};
use crate::error::Error;
use crate::primitives::KEY_LEN;

verus! {

/// The number every stored keyring starts with.
pub const MAGIC: i64 = 0xfe_73ba_2003;

/// The kind of material that marks a secret keyring.
pub const KIND_SECRET: u8 = 1;

/// The version of the format.
pub const VERSION: i64 = 1;

/// Length in bytes of a stored secret keyring.
pub const RECORD_LEN: usize = 153;

/// The four byte strings of a stored secret keyring.
pub struct SecretRecord {
    pub signing_seed: Vec<u8>,
    pub signing_public: Vec<u8>,
    pub agreement_secret: Vec<u8>,
    pub agreement_public: Vec<u8>,
}

/// A `SecretRecord` as mathematical sequences.
pub struct RecordView {
    pub signing_seed: Seq<u8>,
    pub signing_public: Seq<u8>,
    pub agreement_secret: Seq<u8>,
    pub agreement_public: Seq<u8>,
}

impl View for SecretRecord {
    type V = RecordView;

    open spec fn view(&self) -> RecordView {
        RecordView {
            signing_seed: self.signing_seed@,
            signing_public: self.signing_public@,
            agreement_secret: self.agreement_secret@,
            agreement_public: self.agreement_public@,
        }
    }
}

impl RecordView {
    /// Whether each of the four byte strings is 32 bytes long.
    pub open spec fn has_key_lengths(self) -> bool {
        &&& self.signing_seed.len() == KEY_LEN
        &&& self.signing_public.len() == KEY_LEN
        &&& self.agreement_secret.len() == KEY_LEN
        &&& self.agreement_public.len() == KEY_LEN
    }
}

/// The elements of the stored form, one after the other.
pub open spec fn record_content(record: RecordView) -> Seq<u8> {
    der_integer(MAGIC as int) + der_integer(KIND_SECRET as int) + der_integer(VERSION as int)
        + der_octet_string(record.signing_seed) + der_octet_string(record.signing_public)
        + der_octet_string(record.agreement_secret) + der_octet_string(record.agreement_public)
}

/// The stored form of a record.
pub open spec fn encoded_record(record: RecordView) -> Seq<u8> {
    der_sequence(record_content(record))
}

/// The INTEGER that starts at `pos`, with the position behind it.
pub open spec fn integer_at(s: Seq<u8>, pos: int) -> Option<(int, int)> {
    match element_at(s, pos) {
        None => None,
        Some((tag, start, end)) => if tag != TAG_INTEGER {
            None
        } else {
            match integer_value(s.subrange(start, end)) {
                None => None,
                Some(value) => Some((value, end)),
            }
        },
    }
}

/// The OCTET STRING that starts at `pos`, with the position behind it.
pub open spec fn octets_at(s: Seq<u8>, pos: int) -> Option<(Seq<u8>, int)> {
    match element_at(s, pos) {
        None => None,
        Some((tag, start, end)) => if tag != TAG_OCTET_STRING {
            None
        } else {
            Some((s.subrange(start, end), end))
        },
    }
}

/// The four OCTET STRINGs that start at `pos` and end with `s`.
pub open spec fn decoded_keys(s: Seq<u8>, pos: int) -> Result<RecordView, Error> {
    match octets_at(s, pos) {
        None => Err(Error::Malformed),
        Some((signing_seed, pos1)) => match octets_at(s, pos1) {
            None => Err(Error::Malformed),
            Some((signing_public, pos2)) => match octets_at(s, pos2) {
                None => Err(Error::Malformed),
                Some((agreement_secret, pos3)) => match octets_at(s, pos3) {
                    None => Err(Error::Malformed),
                    Some((agreement_public, pos4)) => {
                        let record = RecordView {
                            signing_seed,
                            signing_public,
                            agreement_secret,
                            agreement_public,
                        };
                        if pos4 != s.len() {
                            Err(Error::Malformed)
                        } else if !record.has_key_lengths() {
                            Err(Error::BadKeyLength)
                        } else {
                            Ok(record)
                        }
                    },
                },
            },
        },
    }
}

/// The three INTEGERs that start at `pos`, checked one by one, and the keys
/// behind them.
pub open spec fn decoded_body(s: Seq<u8>, pos: int) -> Result<RecordView, Error> {
    match integer_at(s, pos) {
        None => Err(Error::Malformed),
        Some((magic, pos1)) => if magic != MAGIC {
            Err(Error::UnknownMagic)
        } else {
            match integer_at(s, pos1) {
                None => Err(Error::Malformed),
                Some((kind, pos2)) => if kind != KIND_SECRET {
                    Err(Error::UnknownKind)
                } else {
                    match integer_at(s, pos2) {
                        None => Err(Error::Malformed),
                        Some((version, pos3)) => if version != VERSION {
                            Err(Error::UnknownVersion)
                        } else {
                            decoded_keys(s, pos3)
                        },
                    }
                },
            }
        },
    }
}

/// What a byte string holds when read as a stored secret keyring.
///
/// The input is one SEQUENCE with nothing behind it. Magic number, kind and
/// version are checked in this order before any key is looked at; each key
/// must be 32 bytes long.
pub open spec fn decoded_record(s: Seq<u8>) -> Result<RecordView, Error> {
    match element_at(s, 0) {
        None => Err(Error::Malformed),
        Some((tag, start, end)) => if tag != TAG_SEQUENCE || end != s.len() {
            Err(Error::Malformed)
        } else {
            decoded_body(s, start)
        },
    }
}

/// The first 17 bytes of every stored secret keyring: the head of the
/// SEQUENCE, then magic number, kind and version.
pub open spec fn record_header() -> Seq<u8> {
    seq![
        0x30u8, 0x81u8, 0x96u8, 0x02u8, 0x06u8, 0x00u8, 0xfeu8, 0x73u8, 0xbau8, 0x20u8, 0x03u8,
        0x02u8, 0x01u8, 0x01u8, 0x02u8, 0x01u8, 0x01u8,
    ]
}

/// The head of an OCTET STRING of 32 bytes.
pub open spec fn key_header() -> Seq<u8> {
    seq![0x04u8, 0x20u8]
}

/// The stored form written out byte by byte.
pub open spec fn record_layout(record: RecordView) -> Seq<u8> {
    record_header() + key_header() + record.signing_seed + key_header() + record.signing_public
        + key_header() + record.agreement_secret + key_header() + record.agreement_public
}

/// The three INTEGERs of a record take 8, 3 and 3 bytes.
proof fn lemma_integer_encodings()
    ensures
        der_integer(MAGIC as int) == seq![0x02u8, 0x06u8, 0x00u8, 0xfeu8, 0x73u8, 0xbau8, 0x20u8, 0x03u8],
        der_integer(KIND_SECRET as int) == seq![0x02u8, 0x01u8, 0x01u8],
        der_integer(VERSION as int) == seq![0x02u8, 0x01u8, 0x01u8],
{
    reveal_with_fuel(twos_complement, 7);
    assert(integer_len(MAGIC as int) == 6);
    assert(integer_len(1) == 1);
    assert(twos_complement(MAGIC as int, 6) =~= seq![0x00u8, 0xfeu8, 0x73u8, 0xbau8, 0x20u8, 0x03u8]);
    assert(twos_complement(1, 1) =~= seq![0x01u8]);
    assert(der_integer(MAGIC as int) =~= seq![0x02u8, 0x06u8, 0x00u8, 0xfeu8, 0x73u8, 0xbau8, 0x20u8, 0x03u8]);
    assert(der_integer(1) =~= seq![0x02u8, 0x01u8, 0x01u8]);
}

/// The lengths 32 and 150 as DER writes them.
proof fn lemma_length_encodings()
    ensures
        der_length(32) == seq![0x20u8],
        der_length(150) == seq![0x81u8, 0x96u8],
{
    reveal_with_fuel(be_bytes, 3);
    assert(be_bytes(150) =~= seq![0x96u8]);
    assert(der_length(150) =~= seq![0x81u8, 0x96u8]);
}

/// A record of 32-byte keys is stored as its layout: 153 bytes.
pub proof fn lemma_record_layout(record: RecordView)
    requires
        record.has_key_lengths(),
    ensures
        encoded_record(record) == record_layout(record),
        encoded_record(record).len() == RECORD_LEN,
{
    lemma_integer_encodings();
    lemma_length_encodings();
    let content = record_content(record);
    assert(der_octet_string(record.signing_seed) =~= key_header() + record.signing_seed);
    assert(der_octet_string(record.signing_public) =~= key_header() + record.signing_public);
    assert(der_octet_string(record.agreement_secret) =~= key_header() + record.agreement_secret);
    assert(der_octet_string(record.agreement_public) =~= key_header() + record.agreement_public);
    assert(content.len() == 150);
    assert(encoded_record(record) =~= record_layout(record));
}

/// The magic number read back from its six content octets.
proof fn lemma_magic_value()
    ensures
        integer_value(seq![0x00u8, 0xfeu8, 0x73u8, 0xbau8, 0x20u8, 0x03u8]) == Some(MAGIC as int),
        integer_value(seq![0x01u8]) == Some(1int),
{
    let c = seq![0x00u8, 0xfeu8, 0x73u8, 0xbau8, 0x20u8, 0x03u8];
    let c5 = seq![0x00u8, 0xfeu8, 0x73u8, 0xbau8, 0x20u8];
    let c4 = seq![0x00u8, 0xfeu8, 0x73u8, 0xbau8];
    let c3 = seq![0x00u8, 0xfeu8, 0x73u8];
    let c2 = seq![0x00u8, 0xfeu8];
    let c1 = seq![0x00u8];
    assert(c.drop_last() =~= c5);
    assert(c5.drop_last() =~= c4);
    assert(c4.drop_last() =~= c3);
    assert(c3.drop_last() =~= c2);
    assert(c2.drop_last() =~= c1);
    assert(be_signed(c1) == 0);
    assert(be_signed(c2) == 0xfe);
    assert(be_signed(c3) == 0xfe73);
    assert(be_signed(c4) == 0xfe73ba);
    assert(be_signed(c5) == 0xfe73ba20);
    assert(be_signed(c) == 0xfe73ba2003);
    assert(be_signed(seq![0x01u8]) == 1);
}

/// Reading the keys of a layout gives the record back.
proof fn lemma_decode_keys(record: RecordView)
    requires
        record.has_key_lengths(),
    ensures
        decoded_keys(record_layout(record), 17) == Ok::<RecordView, Error>(record),
{
    let s = record_layout(record);
    assert(s.len() == 153);
    assert(s[17] == 0x04 && s[18] == 0x20);
    assert(s[51] == 0x04 && s[52] == 0x20);
    assert(s[85] == 0x04 && s[86] == 0x20);
    assert(s[119] == 0x04 && s[120] == 0x20);
    assert(s.subrange(19, 51) =~= record.signing_seed);
    assert(s.subrange(53, 85) =~= record.signing_public);
    assert(s.subrange(87, 119) =~= record.agreement_secret);
    assert(s.subrange(121, 153) =~= record.agreement_public);
    assert(element_at(s, 17) == Some((0x04u8, 19int, 51int)));
    assert(element_at(s, 51) == Some((0x04u8, 53int, 85int)));
    assert(element_at(s, 85) == Some((0x04u8, 87int, 119int)));
    assert(element_at(s, 119) == Some((0x04u8, 121int, 153int)));
    assert(octets_at(s, 17) == Some((record.signing_seed, 51int)));
    assert(octets_at(s, 51) == Some((record.signing_public, 85int)));
    assert(octets_at(s, 85) == Some((record.agreement_secret, 119int)));
    assert(octets_at(s, 119) == Some((record.agreement_public, 153int)));
}

/// Reading the head of a layout finds magic number, kind and version.
proof fn lemma_decode_header(record: RecordView)
    requires
        record.has_key_lengths(),
    ensures
        element_at(record_layout(record), 0) == Some((TAG_SEQUENCE, 3int, 153int)),
        integer_at(record_layout(record), 3) == Some((MAGIC as int, 11int)),
        integer_at(record_layout(record), 11) == Some((KIND_SECRET as int, 14int)),
        integer_at(record_layout(record), 14) == Some((VERSION as int, 17int)),
{
    let s = record_layout(record);
    lemma_magic_value();
    assert(s.len() == 153);
    assert(s[0] == 0x30 && s[1] == 0x81 && s[2] == 0x96);
    assert(s[3] == 0x02 && s[4] == 0x06);
    assert(s[11] == 0x02 && s[12] == 0x01 && s[13] == 0x01);
    assert(s[14] == 0x02 && s[15] == 0x01 && s[16] == 0x01);
    assert(s.subrange(5, 11) =~= seq![0x00u8, 0xfeu8, 0x73u8, 0xbau8, 0x20u8, 0x03u8]);
    assert(s.subrange(13, 14) =~= seq![0x01u8]);
    assert(s.subrange(16, 17) =~= seq![0x01u8]);
    assert(element_at(s, 0) == Some((0x30u8, 3int, 153int)));
    assert(element_at(s, 3) == Some((0x02u8, 5int, 11int)));
    assert(element_at(s, 11) == Some((0x02u8, 13int, 14int)));
    assert(element_at(s, 14) == Some((0x02u8, 16int, 17int)));
}

/// What is written for a record of 32-byte keys is read back as that record.
pub proof fn lemma_record_round_trip(record: RecordView)
    requires
        record.has_key_lengths(),
    ensures
        decoded_record(encoded_record(record)) == Ok::<RecordView, Error>(record),
        encoded_record(record).len() == RECORD_LEN,
{
    lemma_record_layout(record);
    lemma_decode_header(record);
    lemma_decode_keys(record);
    let s = record_layout(record);
    assert(decoded_body(s, 3) == decoded_keys(s, 17));
    assert(decoded_record(s) == decoded_body(s, 3));
}

/// An INTEGER that is found is written in the octets it was read from.
proof fn lemma_integer_at_is_canonical(s: Seq<u8>, pos: int)
    requires
        integer_at(s, pos) is Some,
    ensures
        ({
            let (value, next) = integer_at(s, pos)->0;
            &&& 0 <= pos < next <= s.len()
            &&& s.subrange(pos, next) == der_integer(value)
        }),
{
    let (tag, start, end) = element_at(s, pos)->0;
    lemma_element_is_canonical(s, pos);
    lemma_integer_is_canonical(s.subrange(start, end));
}

/// An OCTET STRING that is found is written in the octets it was read from.
proof fn lemma_octets_at_is_canonical(s: Seq<u8>, pos: int)
    requires
        octets_at(s, pos) is Some,
    ensures
        ({
            let (octets, next) = octets_at(s, pos)->0;
            &&& 0 <= pos < next <= s.len()
            &&& s.subrange(pos, next) == der_octet_string(octets)
        }),
{
    lemma_element_is_canonical(s, pos);
}

/// Keys that are read at `pos` are written from there to the end.
proof fn lemma_keys_are_canonical(s: Seq<u8>, pos: int, record: RecordView)
    requires
        decoded_keys(s, pos) == Ok::<RecordView, Error>(record),
    ensures
        0 <= pos <= s.len(),
        s.subrange(pos, s.len() as int) == der_octet_string(record.signing_seed)
            + der_octet_string(record.signing_public) + der_octet_string(record.agreement_secret)
            + der_octet_string(record.agreement_public),
{
    lemma_octets_at_is_canonical(s, pos);
    let (_, pos1) = octets_at(s, pos)->0;
    lemma_octets_at_is_canonical(s, pos1);
    let (_, pos2) = octets_at(s, pos1)->0;
    lemma_octets_at_is_canonical(s, pos2);
    let (_, pos3) = octets_at(s, pos2)->0;
    lemma_octets_at_is_canonical(s, pos3);
    assert(s.subrange(pos, s.len() as int) =~= s.subrange(pos, pos1) + s.subrange(pos1, pos2)
        + s.subrange(pos2, pos3) + s.subrange(pos3, s.len() as int));
}

/// A byte string that is read as a record is the stored form of that record:
/// no two byte strings hold the same keyring.
pub proof fn lemma_record_is_canonical(s: Seq<u8>, record: RecordView)
    requires
        decoded_record(s) == Ok::<RecordView, Error>(record),
    ensures
        record.has_key_lengths(),
        s == encoded_record(record),
{
    lemma_element_is_canonical(s, 0);
    let (_, start, end) = element_at(s, 0)->0;
    lemma_integer_at_is_canonical(s, start);
    let (_, pos1) = integer_at(s, start)->0;
    lemma_integer_at_is_canonical(s, pos1);
    let (_, pos2) = integer_at(s, pos1)->0;
    lemma_integer_at_is_canonical(s, pos2);
    let (_, pos3) = integer_at(s, pos2)->0;
    lemma_keys_are_canonical(s, pos3, record);
    assert(s.subrange(start, end) =~= s.subrange(start, pos1) + s.subrange(pos1, pos2) + s.subrange(
        pos2,
        pos3,
    ) + s.subrange(pos3, end));
    assert(s.subrange(start, end) =~= record_content(record));
    assert(s.subrange(0, end) =~= s);
}

/// Writes a record in its stored form.
pub fn encode_record(record: &SecretRecord) -> (out: Vec<u8>)
    ensures
        out@ == encoded_record(record@),
{
    let mut content: Vec<u8> = write_integer(MAGIC);
    let kind: Vec<u8> = write_small_integer(KIND_SECRET);
    append_bytes(&mut content, kind.as_slice());
    let version: Vec<u8> = write_integer(VERSION);
    append_bytes(&mut content, version.as_slice());
    let signing_seed: Vec<u8> = write_octet_string(record.signing_seed.as_slice());
    append_bytes(&mut content, signing_seed.as_slice());
    let signing_public: Vec<u8> = write_octet_string(record.signing_public.as_slice());
    append_bytes(&mut content, signing_public.as_slice());
    let agreement_secret: Vec<u8> = write_octet_string(record.agreement_secret.as_slice());
    append_bytes(&mut content, agreement_secret.as_slice());
    let agreement_public: Vec<u8> = write_octet_string(record.agreement_public.as_slice());
    append_bytes(&mut content, agreement_public.as_slice());
    write_sequence(content.as_slice())
}

/// Reads the INTEGER that starts at `pos`.
fn read_integer_at(bytes: &[u8], pos: usize) -> (found: Option<(i64, usize)>)
    ensures
        match found {
            Some((value, next)) => integer_at(bytes@, pos as int) == Some(
                (value as int, next as int),
            ) && next <= bytes@.len(),
            None => integer_at(bytes@, pos as int) is None,
        },
{
    match read_element(bytes, pos) {
        None => None,
        Some(element) => {
            if element.tag != TAG_INTEGER {
                return None;
            }
            match read_integer(element_content(bytes, &element)) {
                None => None,
                Some(value) => Some((value, element.end)),
            }
        },
    }
}

/// Reads the OCTET STRING that starts at `pos`.
fn read_octets_at(bytes: &[u8], pos: usize) -> (found: Option<(Vec<u8>, usize)>)
    ensures
        match found {
            Some((octets, next)) => octets_at(bytes@, pos as int) == Some((octets@, next as int))
                && next <= bytes@.len(),
            None => octets_at(bytes@, pos as int) is None,
        },
{
    match read_element(bytes, pos) {
        None => None,
        Some(element) => {
            if element.tag != TAG_OCTET_STRING {
                return None;
            }
            Some((copy_bytes(element_content(bytes, &element)), element.end))
        },
    }
}

/// Reads the four keys that start at `pos`.
fn decode_keys(bytes: &[u8], pos: usize) -> (out: Result<SecretRecord, Error>)
    ensures
        match out {
            Ok(record) => decoded_keys(bytes@, pos as int) == Ok::<RecordView, Error>(record@),
            Err(e) => decoded_keys(bytes@, pos as int) == Err::<RecordView, Error>(e),
        },
{
    let (signing_seed, pos1) = match read_octets_at(bytes, pos) {
        None => { return Err(Error::Malformed); },
        Some(found) => found,
    };
    let (signing_public, pos2) = match read_octets_at(bytes, pos1) {
        None => { return Err(Error::Malformed); },
        Some(found) => found,
    };
    let (agreement_secret, pos3) = match read_octets_at(bytes, pos2) {
        None => { return Err(Error::Malformed); },
        Some(found) => found,
    };
    let (agreement_public, pos4) = match read_octets_at(bytes, pos3) {
        None => { return Err(Error::Malformed); },
        Some(found) => found,
    };
    if pos4 != bytes.len() {
        return Err(Error::Malformed);
    }
    if signing_seed.len() != KEY_LEN || signing_public.len() != KEY_LEN || agreement_secret.len()
        != KEY_LEN || agreement_public.len() != KEY_LEN {
        return Err(Error::BadKeyLength);
    }
    Ok(SecretRecord { signing_seed, signing_public, agreement_secret, agreement_public })
}

/// Reads a stored secret keyring.
///
/// What is accepted is the stored form of the record that is returned, byte
/// for byte.
pub fn decode_record(bytes: &[u8]) -> (out: Result<SecretRecord, Error>)
    ensures
        match out {
            Ok(record) => decoded_record(bytes@) == Ok::<RecordView, Error>(record@)
                && record@.has_key_lengths() && bytes@ == encoded_record(record@),
            Err(e) => decoded_record(bytes@) == Err::<RecordView, Error>(e),
        },
{
    proof {
        if let Ok(record) = decoded_record(bytes@) {
            lemma_record_is_canonical(bytes@, record);
        }
    }
    let outer = match read_element(bytes, 0) {
        None => { return Err(Error::Malformed); },
        Some(element) => element,
    };
    if outer.tag != TAG_SEQUENCE || outer.end != bytes.len() {
        return Err(Error::Malformed);
    }
    let (magic, pos1) = match read_integer_at(bytes, outer.start) {
        None => { return Err(Error::Malformed); },
        Some(found) => found,
    };
    if magic != MAGIC {
        return Err(Error::UnknownMagic);
    }
    let (kind, pos2) = match read_integer_at(bytes, pos1) {
        None => { return Err(Error::Malformed); },
        Some(found) => found,
    };
    if kind != KIND_SECRET as i64 {
        return Err(Error::UnknownKind);
    }
    let (version, pos3) = match read_integer_at(bytes, pos2) {
        None => { return Err(Error::Malformed); },
        Some(found) => found,
    };
    if version != VERSION {
        return Err(Error::UnknownVersion);
    }
    decode_keys(bytes, pos3)
}

} // verus!
