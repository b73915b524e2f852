//! The part of DER that a stored keyring uses: INTEGER, OCTET STRING and
//! SEQUENCE with definite lengths.
//!
//! Writing goes through `yasna`; what it writes is stated here as functions on
//! byte sequences. Reading is this crate's own and is strict: a length or an
//! integer that is not in its shortest form is refused.

use vstd::prelude::*;
use vstd::slice::slice_subrange;

verus! {

/// Identifier octet of an INTEGER.
pub const TAG_INTEGER: u8 = 0x02;

/// Identifier octet of an OCTET STRING.
pub const TAG_OCTET_STRING: u8 = 0x04;

/// Identifier octet of a SEQUENCE.
pub const TAG_SEQUENCE: u8 = 0x30;

/// The longest content that `read_element` accepts: what two length octets
/// can express.
pub const MAX_CONTENT_LEN: usize = 0xffff;

/// The octets of `n`, most significant first, without leading zeros.
pub open spec fn be_bytes(n: nat) -> Seq<u8>
    decreases n,
{
    if n == 0 {
        Seq::empty()
    } else {
        be_bytes(n / 256).push((n % 256) as u8)
    }
}

/// The length octets of a content of `n` octets: one octet below 128,
/// otherwise the count of the octets that follow, with the high bit set, and
/// then the length itself.
pub open spec fn der_length(n: nat) -> Seq<u8> {
    if n < 128 {
        seq![n as u8]
    } else {
        seq![(128 + be_bytes(n).len()) as u8] + be_bytes(n)
    }
}

/// The exclusive bound of the values that fit in `n` octets of two's
/// complement, for `n` from 1 to 8.
pub open spec fn signed_bound(n: nat) -> int {
    if n == 1 {
        0x80
    } else if n == 2 {
        0x8000
    } else if n == 3 {
        0x80_0000
    } else if n == 4 {
        0x8000_0000
    } else if n == 5 {
        0x80_0000_0000
    } else if n == 6 {
        0x8000_0000_0000
    } else if n == 7 {
        0x80_0000_0000_0000
    } else {
        0x8000_0000_0000_0000
    }
}

/// Whether `value` fits in `n` octets of two's complement.
pub open spec fn fits_in(value: int, n: nat) -> bool {
    -signed_bound(n) <= value < signed_bound(n)
}

/// The least number of octets, from 1 to 8, in which `value` fits.
pub open spec fn integer_len(value: int) -> nat {
    if fits_in(value, 1) {
        1
    } else if fits_in(value, 2) {
        2
    } else if fits_in(value, 3) {
        3
    } else if fits_in(value, 4) {
        4
    } else if fits_in(value, 5) {
        5
    } else if fits_in(value, 6) {
        6
    } else if fits_in(value, 7) {
        7
    } else {
        8
    }
}

/// The low `n` octets of `value` in two's complement, most significant first.
pub open spec fn twos_complement(value: int, n: nat) -> Seq<u8>
    decreases n,
{
    if n == 0 {
        Seq::empty()
    } else {
        twos_complement(value / 256, (n - 1) as nat).push((value % 256) as u8)
    }
}

/// The DER encoding of an INTEGER that fits in 64 bits.
pub open spec fn der_integer(value: int) -> Seq<u8> {
    seq![TAG_INTEGER, integer_len(value) as u8] + twos_complement(value, integer_len(value))
}

/// The DER encoding of an OCTET STRING.
pub open spec fn der_octet_string(bytes: Seq<u8>) -> Seq<u8> {
    seq![TAG_OCTET_STRING] + der_length(bytes.len()) + bytes
}

/// The DER encoding of a SEQUENCE whose elements, already encoded, are
/// `content`.
pub open spec fn der_sequence(content: Seq<u8>) -> Seq<u8> {
    seq![TAG_SEQUENCE] + der_length(content.len()) + content
}

/// The value of `content` read as two's complement, most significant octet
/// first.
pub open spec fn be_signed(content: Seq<u8>) -> int
    decreases content.len(),
{
    if content.len() == 0 {
        0
    } else if content.len() == 1 {
        if content[0] < 0x80 {
            content[0] as int
        } else {
            content[0] - 0x100
        }
    } else {
        be_signed(content.drop_last()) * 256 + content.last()
    }
}

/// Whether `content` has an octet in front that the value does not need.
pub open spec fn has_redundant_octet(content: Seq<u8>) -> bool {
    content.len() >= 2 && ((content[0] == 0x00 && content[1] < 0x80) || (content[0] == 0xff
        && content[1] >= 0x80))
}

/// The value of the content octets of an INTEGER: `None` unless they are one
/// to eight octets in shortest form.
pub open spec fn integer_value(content: Seq<u8>) -> Option<int> {
    if content.len() == 0 || content.len() > 8 || has_redundant_octet(content) {
        None
    } else {
        Some(be_signed(content))
    }
}

/// The length that the octets from `pos` on announce, with the position of
/// the first content octet: `None` unless it is in shortest form and takes at
/// most two octets after the first.
pub open spec fn length_at(s: Seq<u8>, pos: int) -> Option<(int, int)> {
    if !(0 <= pos < s.len()) {
        None
    } else if s[pos] < 0x80 {
        Some((s[pos] as int, pos + 1))
    } else if s[pos] == 0x81 {
        if pos + 1 < s.len() && s[pos + 1] >= 0x80 {
            Some((s[pos + 1] as int, pos + 2))
        } else {
            None
        }
    } else if s[pos] == 0x82 {
        if pos + 2 < s.len() && s[pos + 1] != 0 {
            Some((s[pos + 1] * 256 + s[pos + 2], pos + 3))
        } else {
            None
        }
    } else {
        None
    }
}

/// The element that starts at `pos`: its identifier octet and the bounds of
/// its content. `None` unless the identifier is a single octet, the length is
/// accepted by `length_at` and the content lies inside `s`.
pub open spec fn element_at(s: Seq<u8>, pos: int) -> Option<(u8, int, int)> {
    if !(0 <= pos < s.len()) || s[pos] % 32 == 31 {
        None
    } else {
        match length_at(s, pos + 1) {
            None => None,
            Some((len, start)) => if start + len <= s.len() {
                Some((s[pos], start, start + len))
            } else {
                None
            },
        }
    }
}

/// The octets of two's complement are as many as were asked for.
pub proof fn lemma_twos_complement_len(value: int, n: nat)
    ensures
        twos_complement(value, n).len() == n,
    decreases n,
{
    if n > 0 {
        lemma_twos_complement_len(value / 256, (n - 1) as nat);
    }
}

/// Reading the octets of two's complement gives the value back, where the
/// value fits in them.
pub proof fn lemma_twos_complement_value(value: int, n: nat)
    requires
        1 <= n <= 8,
        fits_in(value, n),
    ensures
        be_signed(twos_complement(value, n)) == value,
    decreases n,
{
    let octets = twos_complement(value, n);
    let front = twos_complement(value / 256, (n - 1) as nat);
    lemma_twos_complement_len(value, n);
    lemma_twos_complement_len(value / 256, (n - 1) as nat);
    assert(octets == front.push((value % 256) as u8));
    assert(octets.drop_last() =~= front);
    if n == 1 {
        assert(octets[0] == (value % 256) as u8);
    } else {
        lemma_twos_complement_value(value / 256, (n - 1) as nat);
    }
}

/// Writing the value of one to eight octets in as many octets gives the
/// octets back.
pub proof fn lemma_be_signed_octets(content: Seq<u8>)
    requires
        1 <= content.len() <= 8,
    ensures
        fits_in(be_signed(content), content.len()),
        twos_complement(be_signed(content), content.len()) == content,
    decreases content.len(),
{
    let value = be_signed(content);
    let front = content.drop_last();
    assert(front.push(content.last()) =~= content);
    if content.len() == 1 {
        assert(front =~= Seq::<u8>::empty());
        reveal_with_fuel(twos_complement, 2);
        assert(twos_complement(value, 1) =~= Seq::<u8>::empty().push((value % 256) as u8));
    } else {
        lemma_be_signed_octets(front);
        assert(value / 256 == be_signed(front));
        assert(value % 256 == content.last());
    }
}

/// The value of the first two octets, read as two's complement.
pub open spec fn leading_value(content: Seq<u8>) -> int {
    be_signed(content.subrange(0, 2))
}

/// Whether the value of two or more octets would fit in one octet less is
/// decided by the first two of them.
pub proof fn lemma_leading_octets(content: Seq<u8>)
    requires
        2 <= content.len() <= 8,
    ensures
        -0x80 <= leading_value(content) < 0x80 <==> fits_in(
            be_signed(content),
            (content.len() - 1) as nat,
        ),
        -0x80 <= leading_value(content) < 0x80 <==> has_redundant_octet(content),
    decreases content.len(),
{
    let top = content.subrange(0, 2);
    assert(top.drop_last() =~= seq![content[0]]);
    assert(top.last() == content[1]);
    assert(be_signed(top.drop_last()) == if content[0] < 0x80 {
        content[0] as int
    } else {
        content[0] - 0x100
    });
    if content.len() == 2 {
        assert(top =~= content);
    } else {
        let front = content.drop_last();
        assert(front.subrange(0, 2) =~= top);
        lemma_leading_octets(front);
    }
}

/// The content octets of an INTEGER that is accepted are the ones that are
/// written for its value: no other octets stand for the same number.
pub proof fn lemma_integer_is_canonical(content: Seq<u8>)
    requires
        integer_value(content) is Some,
    ensures
        integer_len(be_signed(content)) == content.len(),
        twos_complement(be_signed(content), content.len()) == content,
        der_integer(be_signed(content)) == seq![TAG_INTEGER, content.len() as u8] + content,
{
    lemma_be_signed_octets(content);
    if content.len() >= 2 {
        lemma_leading_octets(content);
    }
}

/// An INTEGER that fits in 64 bits is read back from what is written for it.
pub proof fn lemma_integer_round_trip(value: int)
    requires
        i64::MIN <= value <= i64::MAX,
    ensures
        integer_value(twos_complement(value, integer_len(value))) == Some(value),
{
    let n = integer_len(value);
    let content = twos_complement(value, n);
    lemma_twos_complement_len(value, n);
    lemma_twos_complement_value(value, n);
    if n >= 2 {
        lemma_leading_octets(content);
    }
}

/// The octets of a length below 65536.
pub proof fn lemma_be_bytes_short(n: nat)
    requires
        0 < n <= MAX_CONTENT_LEN,
    ensures
        n < 256 ==> be_bytes(n) == seq![n as u8],
        n >= 256 ==> be_bytes(n) == seq![(n / 256) as u8, (n % 256) as u8],
{
    reveal_with_fuel(be_bytes, 3);
    if n < 256 {
        assert(be_bytes(n) =~= seq![n as u8]);
    } else {
        assert(be_bytes(n / 256) =~= seq![(n / 256) as u8]);
        assert(be_bytes(n) =~= seq![(n / 256) as u8, (n % 256) as u8]);
    }
}

/// A length that is accepted is written in the octets it was read from.
pub proof fn lemma_length_is_canonical(s: Seq<u8>, pos: int)
    requires
        length_at(s, pos) is Some,
    ensures
        ({
            let (len, next) = length_at(s, pos)->0;
            &&& 0 <= len <= MAX_CONTENT_LEN
            &&& pos < next <= s.len()
            &&& s.subrange(pos, next) == der_length(len as nat)
        }),
{
    let (len, next) = length_at(s, pos)->0;
    if len > 0 {
        lemma_be_bytes_short(len as nat);
    }
    assert(s.subrange(pos, next) =~= der_length(len as nat));
}

/// A length below 65536 is read back from what is written for it, wherever
/// it stands.
pub proof fn lemma_length_round_trip(s: Seq<u8>, pos: int, n: nat)
    requires
        n <= MAX_CONTENT_LEN,
        0 <= pos,
        pos + der_length(n).len() <= s.len(),
        s.subrange(pos, pos + der_length(n).len()) == der_length(n),
    ensures
        length_at(s, pos) == Some((n as int, pos + der_length(n).len())),
{
    let written = der_length(n);
    if n > 0 {
        lemma_be_bytes_short(n);
    }
    assert(s[pos] == s.subrange(pos, pos + written.len())[0]);
    if n >= 128 {
        assert(s[pos + 1] == s.subrange(pos, pos + written.len())[1]);
        if n >= 256 {
            assert(s[pos + 2] == s.subrange(pos, pos + written.len())[2]);
        }
    }
}

/// An element that is accepted is written in the octets it was read from:
/// its identifier, the length of its content in shortest form, and the
/// content.
pub proof fn lemma_element_is_canonical(s: Seq<u8>, pos: int)
    requires
        element_at(s, pos) is Some,
    ensures
        ({
            let (tag, start, end) = element_at(s, pos)->0;
            &&& 0 <= pos < start <= end <= s.len()
            &&& s.subrange(pos, end) == seq![tag] + der_length((end - start) as nat) + s.subrange(
                start,
                end,
            )
        }),
{
    let (tag, start, end) = element_at(s, pos)->0;
    lemma_length_is_canonical(s, pos + 1);
    assert(s.subrange(pos, end) =~= seq![tag] + s.subrange(pos + 1, start) + s.subrange(
        start,
        end,
    ));
}

/// An element found in a buffer: its identifier octet, and where its content
/// starts and ends.
#[derive(Clone, Copy, Debug)]
pub struct Element {
    pub tag: u8,
    pub start: usize,
    pub end: usize,
}

/// Writes an INTEGER with `yasna::DERWriter::write_i64`.
///
/// Assumed: the output is the identifier octet 2, one length octet and the
/// value in the fewest octets of two's complement that hold it.
#[verifier::external_body]
pub(crate) fn write_integer(value: i64) -> (out: Vec<u8>)
    ensures
        out@ == der_integer(value as int),
{
    yasna::construct_der(|writer| writer.write_i64(value))
}

/// Writes an INTEGER with `yasna::DERWriter::write_u8`.
///
/// Assumed: the output is that of `write_i64` for the same value.
#[verifier::external_body]
pub(crate) fn write_small_integer(value: u8) -> (out: Vec<u8>)
    ensures
        out@ == der_integer(value as int),
{
    yasna::construct_der(|writer| writer.write_u8(value))
}

/// Writes an OCTET STRING with `yasna::DERWriter::write_bytes`.
///
/// Assumed: the output is the identifier octet 4, the length in shortest
/// form and the bytes.
#[verifier::external_body]
pub(crate) fn write_octet_string(bytes: &[u8]) -> (out: Vec<u8>)
    ensures
        out@ == der_octet_string(bytes@),
{
    yasna::construct_der(|writer| writer.write_bytes(bytes))
}

/// Writes a SEQUENCE with `yasna::DERWriter::write_sequence`; the encoded
/// elements are handed over in one piece with `write_der`.
///
/// Assumed: the output is the identifier octet 0x30, the length of the
/// content in shortest form and the content unchanged.
#[verifier::external_body]
pub(crate) fn write_sequence(content: &[u8]) -> (out: Vec<u8>)
    ensures
        out@ == der_sequence(content@),
{
    yasna::construct_der(|writer| writer.write_sequence(|seq| seq.next().write_der(content)))
}

/// Reads the element that starts at `pos`.
pub fn read_element(bytes: &[u8], pos: usize) -> (found: Option<Element>)
    ensures
        match found {
            Some(e) => element_at(bytes@, pos as int) == Some((e.tag, e.start as int, e.end as int))
                && pos < e.start <= e.end <= bytes@.len(),
            None => element_at(bytes@, pos as int) is None,
        },
{
    let total: usize = bytes.len();
    if pos >= total {
        return None;
    }
    let tag: u8 = bytes[pos];
    if tag % 32 == 31 {
        return None;
    }
    if total - pos < 2 {
        return None;
    }
    let first: u8 = bytes[pos + 1];
    let len: usize;
    let start: usize;
    if first < 0x80 {
        len = first as usize;
        start = pos + 2;
    } else if first == 0x81 {
        if total - pos < 3 {
            return None;
        }
        let low: u8 = bytes[pos + 2];
        if low < 0x80 {
            return None;
        }
        len = low as usize;
        start = pos + 3;
    } else if first == 0x82 {
        if total - pos < 4 {
            return None;
        }
        let high: u8 = bytes[pos + 2];
        let low: u8 = bytes[pos + 3];
        if high == 0 {
            return None;
        }
        len = high as usize * 256 + low as usize;
        start = pos + 4;
    } else {
        return None;
    }
    if total - start < len {
        return None;
    }
    Some(Element { tag, start, end: start + len })
}

/// Reads the content octets of an INTEGER.
pub fn read_integer(content: &[u8]) -> (value: Option<i64>)
    ensures
        match value {
            Some(v) => integer_value(content@) == Some(v as int),
            None => integer_value(content@) is None,
        },
{
    let n: usize = content.len();
    if n == 0 || n > 8 {
        return None;
    }
    let first: u8 = content[0];
    if n >= 2 {
        let second: u8 = content[1];
        if (first == 0x00 && second < 0x80) || (first == 0xff && second >= 0x80) {
            return None;
        }
    }
    let mut acc: i64 = if first < 0x80 {
        first as i64
    } else {
        first as i64 - 0x100
    };
    let mut i: usize = 1;
    assert(content@.subrange(0, 1)[0] == content@[0]);
    while i < n
        invariant
            1 <= i <= n <= 8,
            n == content@.len(),
            acc == be_signed(content@.subrange(0, i as int)),
            fits_in(acc as int, i as nat),
        decreases n - i,
    {
        proof {
            let next = content@.subrange(0, i + 1);
            assert(next.drop_last() =~= content@.subrange(0, i as int));
            assert(next.last() == content@[i as int]);
        }
        acc = acc * 256 + content[i] as i64;
        i += 1;
    }
    assert(content@.subrange(0, n as int) =~= content@);
    Some(acc)
}

/// The content of an element, as a slice of the buffer it was found in.
pub fn element_content<'a>(bytes: &'a [u8], element: &Element) -> (content: &'a [u8])
    requires
        element.start <= element.end <= bytes@.len(),
    ensures
        content@ == bytes@.subrange(element.start as int, element.end as int),
{
    slice_subrange(bytes, element.start, element.end)
}

} // verus!
