//! The 128-bit identifiers of GPT.
//!
//! A GUID on a GPT disk is laid out like an RFC 4122 UUID, except that
//! its first three fields are stored least significant byte first. The
//! layout here is therefore of no use outside GPT.

use vstd::prelude::*;
use crate::bytes::{u32_le, u32_from_le, read_u32_le, lemma_u32_from_le_round_trip};

verus! {

/// A GUID, field by field. `time_mid` and `time_high_and_version` hold
/// their two bytes in disk order.
#[derive(Debug, Clone, Copy)]
pub struct Guid {
    pub time_low: u32,
    pub time_mid: [u8; 2],
    pub time_high_and_version: [u8; 2],
    pub clock_seq_hi_and_reserved: u8,
    pub clock_seq_low: u8,
    pub node: [u8; 6],
}

impl View for Guid {
    type V = Seq<u8>;

    /// The sixteen bytes of the GUID as they stand on disk.
    open spec fn view(&self) -> Seq<u8> {
        u32_le(self.time_low) + self.time_mid@ + self.time_high_and_version@
            + seq![self.clock_seq_hi_and_reserved, self.clock_seq_low] + self.node@
    }
}

/// The low six bits of `b` under the variant bits `10`.
pub open spec fn with_variant(b: u8) -> u8 {
    (b & 0x3F) | 0x80
}

/// The low nibble of `b` under the version nibble `0100`.
pub open spec fn with_version(b: u8) -> u8 {
    (b & 0x0F) | 0x40
}

/// `raw` with the version nibble and the variant bits of a random
/// (version 4) GUID forced into bytes 7 and 8.
pub open spec fn stamp_v4(raw: Seq<u8>) -> Seq<u8> {
    raw.update(7, with_version(raw[7])).update(8, with_variant(raw[8]))
}

/// Whether sixteen disk bytes have the shape of a version 4 GUID.
pub open spec fn is_v4(wire: Seq<u8>) -> bool {
    &&& wire.len() == 16
    &&& wire[7] & 0xF0 == 0x40
    &&& wire[8] & 0xC0 == 0x80
}

impl Guid {
    /// The GUID whose disk bytes are `wire`.
    pub open spec fn decode(wire: Seq<u8>) -> Guid {
        Guid {
            time_low: u32_from_le(wire[0], wire[1], wire[2], wire[3]),
            time_mid: [wire[4], wire[5]],
            time_high_and_version: [wire[6], wire[7]],
            clock_seq_hi_and_reserved: wire[8],
            clock_seq_low: wire[9],
            node: [wire[10], wire[11], wire[12], wire[13], wire[14], wire[15]],
        }
    }

    /// A GUID from its fields.
    pub fn new(
        time_low: u32,
        time_mid: [u8; 2],
        time_high_and_version: [u8; 2],
        clock_seq_hi_and_reserved: u8,
        clock_seq_low: u8,
        node: [u8; 6],
    ) -> (g: Guid)
        ensures
            g == (Guid {
                time_low,
                time_mid,
                time_high_and_version,
                clock_seq_hi_and_reserved,
                clock_seq_low,
                node,
            }),
    {
        Guid {
            time_low,
            time_mid,
            time_high_and_version,
            clock_seq_hi_and_reserved,
            clock_seq_low,
            node,
        }
    }

    /// Splits sixteen disk bytes into the fields of a GUID.
    pub fn from_bytes(bytes: [u8; 16]) -> (g: Guid)
        ensures
            g == Guid::decode(bytes@),
            g@ == bytes@,
    {
        let g = Guid {
            time_low: read_u32_le(bytes[0], bytes[1], bytes[2], bytes[3]),
            time_mid: [bytes[4], bytes[5]],
            time_high_and_version: [bytes[6], bytes[7]],
            clock_seq_hi_and_reserved: bytes[8],
            clock_seq_low: bytes[9],
            node: [bytes[10], bytes[11], bytes[12], bytes[13], bytes[14], bytes[15]],
        };
        proof {
            assert(g.time_mid =~= Guid::decode(bytes@).time_mid);
            assert(g.time_high_and_version =~= Guid::decode(bytes@).time_high_and_version);
            assert(g.node =~= Guid::decode(bytes@).node);
            Guid::lemma_decode_then_view(bytes@);
        }
        g
    }

    /// The sixteen bytes of the GUID in disk order.
    pub fn to_bytes(&self) -> (bytes: [u8; 16])
        ensures
            bytes@ == self@,
    {
        let t = self.time_low;
        let bytes = [
            (t % 0x100) as u8,
            (t / 0x100 % 0x100) as u8,
            (t / 0x1_0000 % 0x100) as u8,
            (t / 0x100_0000) as u8,
            self.time_mid[0],
            self.time_mid[1],
            self.time_high_and_version[0],
            self.time_high_and_version[1],
            self.clock_seq_hi_and_reserved,
            self.clock_seq_low,
            self.node[0],
            self.node[1],
            self.node[2],
            self.node[3],
            self.node[4],
            self.node[5],
        ];
        assert(bytes@ =~= self@);
        bytes
    }

    /// Turns sixteen arbitrary bytes into a version 4 GUID: the variant
    /// bits and the version nibble are forced, every other bit is kept.
    pub fn v4_from_bytes(raw: [u8; 16]) -> (g: Guid)
        ensures
            g@ == stamp_v4(raw@),
            is_v4(g@),
    {
        let mut g = Guid::from_bytes(raw);
        g.clock_seq_hi_and_reserved = (g.clock_seq_hi_and_reserved & 0x3F) | 0x80;
        let version = (g.time_high_and_version[1] & 0x0F) | 0x40;
        g.time_high_and_version = [g.time_high_and_version[0], version];
        proof {
            assert(g@ =~= stamp_v4(raw@));
            lemma_stamped_is_v4(raw@);
        }
        g
    }

    /// A fresh random GUID of version 4.
    pub fn new_v4() -> (g: Guid)
        ensures
            is_v4(g@),
    {
        Guid::v4_from_bytes(random_bytes())
    }

    /// A GUID takes sixteen bytes.
    pub proof fn lemma_len(self)
        ensures
            self@.len() == 16,
    {
    }

    /// Any sixteen bytes survive being split into fields and joined again.
    pub proof fn lemma_decode_then_view(wire: Seq<u8>)
        requires
            wire.len() == 16,
        ensures
            Guid::decode(wire)@ == wire,
    {
        lemma_u32_from_le_round_trip(wire[0], wire[1], wire[2], wire[3]);
        assert(Guid::decode(wire)@ =~= wire);
    }

    /// Every GUID has sixteen disk bytes, and splitting them gives the
    /// GUID back.
    pub proof fn lemma_view_then_decode(g: Guid)
        ensures
            g@.len() == 16,
            Guid::decode(g@) == g,
    {
        let d = Guid::decode(g@);
        assert(d.time_mid =~= g.time_mid);
        assert(d.time_high_and_version =~= g.time_high_and_version);
        assert(d.node =~= g.node);
        crate::bytes::lemma_u32_le_round_trip(g.time_low);
    }
}

/// Stamping sixteen bytes always gives the shape of a version 4 GUID.
pub proof fn lemma_stamped_is_v4(raw: Seq<u8>)
    requires
        raw.len() == 16,
    ensures
        is_v4(stamp_v4(raw)),
{
    let b7 = raw[7];
    let b8 = raw[8];
    assert(((b7 & 0x0F) | 0x40) & 0xF0 == 0x40) by (bit_vector);
    assert(((b8 & 0x3F) | 0x80) & 0xC0 == 0x80) by (bit_vector);
}

/// Sixteen bytes from `rand::random`. Nothing is known of them.
#[verifier::external_body]
fn random_bytes() -> (raw: [u8; 16]) {
    rand::random()
}

} // verus!
