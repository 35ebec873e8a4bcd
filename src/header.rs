//! The Primary Header: its fields, and how 6 bytes map to them and back.
use vstd::prelude::*;
use crate::byte_order::{resolve, ByteOrder};
use crate::words::{
    be_word, control_apid, control_packet_type, control_secondary_header_flag, control_version,
    length_field, sequence_count, sequence_flags,
};

verus! {

/// Number of bytes of a Primary Header.
pub const HEADER_LEN: usize = 6;

/// A decoded Primary Header: a snapshot of the 6 bytes at one stream offset.
#[derive(Clone, Copy, Debug, PartialEq, Eq, Structural)]
pub struct PrimaryHeader {
    /// Packet version number, 3 bits.
    pub version: u8,
    /// 0 for telemetry, 1 for telecommand.
    pub packet_type: u8,
    /// 1 when a secondary header follows the Primary Header.
    pub secondary_header_flag: u8,
    /// Application Process Identifier, 11 bits.
    pub apid: u16,
    /// Segmentation state: 0 continuation, 1 first, 2 last, 3 unsegmented.
    pub sequence_flags: u8,
    /// Rolling sequence counter, 14 bits.
    pub sequence_count: u16,
    /// Octets in the packet data field, minus one.
    pub length_field: u16,
    /// The byte order the header words were read in.
    pub endianness: ByteOrder,
}

impl PrimaryHeader {
    /// Every field fits its bit width, and the words are big-endian.
    pub open spec fn wf(&self) -> bool {
        &&& self.version < 8
        &&& self.packet_type < 2
        &&& self.secondary_header_flag < 2
        &&& self.apid < 2048
        &&& self.sequence_flags < 4
        &&& self.sequence_count < 16384
        &&& self.endianness == ByteOrder::BigEndian
    }

    /// Length of the whole packet this header starts: header, then data field.
    pub open spec fn spec_packet_len(&self) -> nat {
        HEADER_LEN as nat + self.length_field as nat + 1
    }

    /// Length of the whole packet this header starts: header, then data field.
    pub fn packet_len(&self) -> (r: usize)
        ensures
            r == self.spec_packet_len(),
    {
        HEADER_LEN + self.length_field as usize + 1
    }

    /// Length of the data field that follows the header.
    pub fn data_len(&self) -> (r: usize)
        ensures
            r == self.length_field as nat + 1,
    {
        self.length_field as usize + 1
    }
}

/// The header that the first 6 bytes of `s` encode (bits numbered from the
/// most significant bit of the first byte).
pub open spec fn header_of(s: Seq<u8>) -> PrimaryHeader
    recommends
        s.len() >= HEADER_LEN,
{
    let control = be_word(s[0], s[1]);
    let sequence = be_word(s[2], s[3]);
    PrimaryHeader {
        version: ((control & 0xE000u16) >> 13u16) as u8,
        packet_type: ((control & 0x1000u16) >> 12u16) as u8,
        secondary_header_flag: ((control & 0x0800u16) >> 11u16) as u8,
        apid: control & 0x07FFu16,
        sequence_flags: (sequence >> 14u16) as u8,
        sequence_count: sequence & 0x3FFFu16,
        length_field: be_word(s[4], s[5]),
        endianness: ByteOrder::BigEndian,
    }
}

/// The 6 bytes that carry the fields of `h`.
pub open spec fn encoded(h: PrimaryHeader) -> Seq<u8> {
    seq![
        ((h.version << 5u8) | (h.packet_type << 4u8) | (h.secondary_header_flag << 3u8)
            | ((h.apid >> 8u16) as u8)),
        (h.apid & 0xFFu16) as u8,
        ((h.sequence_flags << 6u8) | ((h.sequence_count >> 8u16) as u8)),
        (h.sequence_count & 0xFFu16) as u8,
        (h.length_field >> 8u16) as u8,
        (h.length_field & 0xFFu16) as u8,
    ]
}

/// Decodes the header held by `bytes[start..start + 6]`.
pub(crate) fn decode_at(bytes: &[u8], start: usize) -> (r: PrimaryHeader)
    requires
        start + HEADER_LEN <= bytes@.len(),
    ensures
        r == header_of(bytes@.subrange(start as int, start + HEADER_LEN)),
        r.wf(),
{
    let b0 = bytes[start];
    let b1 = bytes[start + 1];
    let b2 = bytes[start + 2];
    let b3 = bytes[start + 3];
    let b4 = bytes[start + 4];
    let b5 = bytes[start + 5];
    let version = control_version(b0, b1);
    let sequence_flags = sequence_flags(b2, b3);
    let r = PrimaryHeader {
        version: version as u8,
        packet_type: control_packet_type(b0, b1),
        secondary_header_flag: control_secondary_header_flag(b0, b1),
        apid: control_apid(b0, b1),
        sequence_flags: sequence_flags as u8,
        sequence_count: sequence_count(b2, b3),
        length_field: length_field(b4, b5),
        endianness: resolve(),
    };
    proof {
        let w = be_word(b0, b1);
        let v = be_word(b2, b3);
        assert((w & 0xE000u16) >> 13u16 < 8) by (bit_vector);
        assert((w & 0x1000u16) >> 12u16 < 2) by (bit_vector);
        assert((w & 0x0800u16) >> 11u16 < 2) by (bit_vector);
        assert(w & 0x07FFu16 < 2048) by (bit_vector);
        assert(v >> 14u16 < 4) by (bit_vector);
        assert(v & 0x3FFFu16 < 16384) by (bit_vector);
        let s = bytes@.subrange(start as int, start + HEADER_LEN);
        assert(s[0] == b0 && s[1] == b1 && s[2] == b2 && s[3] == b3 && s[4] == b4 && s[5] == b5);
    }
    r
}

/// Decodes a 6-byte Primary Header. Every 6 bytes decode to some header;
/// no field is checked against mission expectations.
pub fn decode(bytes: &[u8]) -> (r: PrimaryHeader)
    requires
        bytes@.len() == HEADER_LEN,
    ensures
        r == header_of(bytes@),
        r.wf(),
{
    let r = decode_at(bytes, 0);
    assert(bytes@.subrange(0, HEADER_LEN as int) =~= bytes@);
    r
}

/// Decoding what was encoded from a header whose fields fit their bit widths
/// gives back that header, field for field.
pub proof fn lemma_round_trip(h: PrimaryHeader)
    requires
        h.wf(),
    ensures
        encoded(h).len() == HEADER_LEN,
        header_of(encoded(h)) == h,
{
    let (v, pt, sf, apid) = (h.version, h.packet_type, h.secondary_header_flag, h.apid);
    let (fl, cnt, len) = (h.sequence_flags, h.sequence_count, h.length_field);
    assert(v < 8 && pt < 2 && sf < 2 && apid < 2048 ==> {
        let b0 = (v << 5u8) | (pt << 4u8) | (sf << 3u8) | ((apid >> 8u16) as u8);
        let b1 = (apid & 0xFFu16) as u8;
        let w = ((b0 as u16) << 8u16) | (b1 as u16);
        &&& ((w & 0xE000u16) >> 13u16) as u8 == v
        &&& ((w & 0x1000u16) >> 12u16) as u8 == pt
        &&& ((w & 0x0800u16) >> 11u16) as u8 == sf
        &&& w & 0x07FFu16 == apid
    }) by (bit_vector);
    assert(fl < 4 && cnt < 16384 ==> {
        let b2 = (fl << 6u8) | ((cnt >> 8u16) as u8);
        let b3 = (cnt & 0xFFu16) as u8;
        let w = ((b2 as u16) << 8u16) | (b3 as u16);
        &&& (w >> 14u16) as u8 == fl
        &&& w & 0x3FFFu16 == cnt
    }) by (bit_vector);
    assert({
        let b4 = (len >> 8u16) as u8;
        let b5 = (len & 0xFFu16) as u8;
        ((b4 as u16) << 8u16) | (b5 as u16) == len
    }) by (bit_vector);
}

/// Encodes the fields of `h` as the 6 bytes of a Primary Header.
pub fn encode(h: &PrimaryHeader) -> (r: Vec<u8>)
    requires
        h.wf(),
    ensures
        r@ == encoded(*h),
        header_of(r@) == *h,
{
    let mut r: Vec<u8> = Vec::new();
    r.push((h.version << 5u8) | (h.packet_type << 4u8) | (h.secondary_header_flag << 3u8)
        | ((h.apid >> 8u16) as u8));
    r.push((h.apid & 0xFFu16) as u8);
    r.push((h.sequence_flags << 6u8) | ((h.sequence_count >> 8u16) as u8));
    r.push((h.sequence_count & 0xFFu16) as u8);
    r.push((h.length_field >> 8u16) as u8);
    r.push((h.length_field & 0xFFu16) as u8);
    proof {
        lemma_round_trip(*h);
    }
    assert(r@ =~= encoded(*h));
    r
}

} // verus!
