use vstd::prelude::*;

use super::{
    be16_hi, be16_join, be16_lo, lemma_be16_roundtrip, spec_be16, spec_hi, spec_lo, zero_buffer,
    EchoDecoder, EchoEncoder, EchoPacket, EchoReply,
};
use crate::addr::IpAddress;
use crate::error::{InvalidPacketError, PingError};

verus! {

/// ICMPv6 message type of an echo request.
pub const ICMPV6_ECHO_REQUEST: u8 = 128;

/// ICMPv6 message type of an echo reply.
pub const ICMPV6_ECHO_REPLY: u8 = 129;

/// Byte `i` of an ICMPv6 echo request: a 4-byte header (type, code, and a
/// checksum left at zero), then identifier and sequence big-endian, then a
/// zero payload.
pub open spec fn v6_request_byte(ident: u16, seq: u16, i: int) -> u8 {
    if i == 0 {
        ICMPV6_ECHO_REQUEST
    } else if i == 4 {
        spec_hi(ident)
    } else if i == 5 {
        spec_lo(ident)
    } else if i == 6 {
        spec_hi(seq)
    } else if i == 7 {
        spec_lo(seq)
    } else {
        0u8
    }
}

/// The exact on-wire bytes of an ICMPv6 echo request. The checksum field
/// stays zero on purpose: it depends on the IPv6 pseudo-header, which this
/// layer never sees, so the kernel fills it in.
pub open spec fn v6_request_bytes(ident: u16, seq: u16, size: int) -> Seq<u8> {
    Seq::new((8 + size) as nat, |i: int| v6_request_byte(ident, seq, i))
}

/// What decoding an ICMPv6 message yields. Raw IPv6 sockets surface the
/// ICMPv6 message alone — no outer IP header, hence no time-to-live.
pub open spec fn v6_decode_spec(addr: IpAddress, b: Seq<u8>) -> Result<EchoReply, PingError> {
    if b.len() < 4 {
        Err(PingError::InvalidPacket(InvalidPacketError::NotIcmpv6Packet))
    } else if b[0] != ICMPV6_ECHO_REPLY {
        Err(PingError::NotV6EchoReply(b[0]))
    } else if b.len() < 8 {
        Err(PingError::InvalidPacket(InvalidPacketError::PayloadTooShort {
            got: (b.len() - 4) as usize,
            want: 4usize,
        }))
    } else {
        Ok(EchoReply {
            ttl: None,
            source: addr,
            seq: spec_be16(b[6], b[7]),
            ident: spec_be16(b[4], b[5]),
            size: (b.len() - 8) as usize,
        })
    }
}

/// Encodes ICMPv6 echo requests; writes no checksum of its own.
pub struct IPv6EchoEncoder {}

impl EchoEncoder for IPv6EchoEncoder {
    open spec fn spec_encode(p: EchoPacket) -> Seq<u8> {
        v6_request_bytes(p.ident, p.seq, p.size as int)
    }

    fn encode(p: EchoPacket) -> (r: Result<Vec<u8>, PingError>) {
        let total: usize = 8 + p.size;
        let mut buf = zero_buffer(total);
        buf.set(0, ICMPV6_ECHO_REQUEST);
        buf.set(4, be16_hi(p.ident));
        buf.set(5, be16_lo(p.ident));
        buf.set(6, be16_hi(p.seq));
        buf.set(7, be16_lo(p.seq));
        proof {
            assert(buf@ =~= v6_request_bytes(p.ident, p.seq, p.size as int));
        }
        Ok(buf)
    }
}

/// Decodes ICMPv6 echo replies out of bare ICMPv6 messages.
pub struct IPv6EchoDecoder {}

impl EchoDecoder for IPv6EchoDecoder {
    open spec fn spec_decode(addr: IpAddress, b: Seq<u8>) -> Result<EchoReply, PingError> {
        v6_decode_spec(addr, b)
    }

    fn decode(addr: IpAddress, buf: &[u8]) -> (r: Result<EchoReply, PingError>) {
        let n: usize = buf.len();
        if n < 4 {
            return Err(PingError::InvalidPacket(InvalidPacketError::NotIcmpv6Packet));
        }
        let typ = buf[0];
        if typ != ICMPV6_ECHO_REPLY {
            return Err(PingError::NotV6EchoReply(typ));
        }
        if n < 8 {
            return Err(PingError::InvalidPacket(InvalidPacketError::PayloadTooShort {
                got: n - 4,
                want: 4,
            }));
        }
        let ident = be16_join(buf[4], buf[5]);
        let seq = be16_join(buf[6], buf[7]);
        Ok(EchoReply { ttl: None, source: addr, seq, ident, size: n - 8 })
    }
}

/// The codec never computes an ICMPv6 checksum: the checksum field of an
/// encoded request is zero.
pub proof fn lemma_v6_no_checksum(ident: u16, seq: u16, size: int)
    requires
        0 <= size,
    ensures
        v6_request_bytes(ident, seq, size)[2] == 0u8,
        v6_request_bytes(ident, seq, size)[3] == 0u8,
{
}

/// Round trip: an encoded request that the remote host echoed back with
/// the type changed to Echo Reply decodes to the identifier and sequence
/// that were encoded, with no time-to-live for this family.
pub proof fn lemma_v6_round_trip(addr: IpAddress, ident: u16, seq: u16, size: int)
    requires
        0 <= size,
        8 + size <= 0xffff,
    ensures
        ({
            let wire = v6_request_bytes(ident, seq, size).update(0, ICMPV6_ECHO_REPLY);
            v6_decode_spec(addr, wire) == Ok::<EchoReply, PingError>(EchoReply {
                ttl: None,
                source: addr,
                seq: seq,
                ident: ident,
                size: size as usize,
            })
        }),
{
    lemma_be16_roundtrip(ident);
    lemma_be16_roundtrip(seq);
}

/// A buffer shorter than one ICMPv6 header never decodes: it fails with
/// the malformed-packet error, whatever it holds.
pub proof fn lemma_v6_short_buffer(addr: IpAddress, b: Seq<u8>)
    requires
        b.len() < 4,
    ensures
        v6_decode_spec(addr, b) == Err::<EchoReply, PingError>(
            PingError::InvalidPacket(InvalidPacketError::NotIcmpv6Packet),
        ),
{
}

/// An ICMPv6 message whose type is not Echo Reply fails with a mismatch
/// error carrying exactly the observed type value.
pub proof fn lemma_v6_type_mismatch(addr: IpAddress, b: Seq<u8>)
    requires
        b.len() >= 4,
        b[0] != ICMPV6_ECHO_REPLY,
    ensures
        v6_decode_spec(addr, b) == Err::<EchoReply, PingError>(PingError::NotV6EchoReply(b[0])),
{
}

/// An echo reply too short to carry identifier and sequence fails with the
/// payload-too-short error, naming what was got and what was wanted.
pub proof fn lemma_v6_payload_too_short(addr: IpAddress, b: Seq<u8>)
    requires
        4 <= b.len() < 8,
        b[0] == ICMPV6_ECHO_REPLY,
    ensures
        v6_decode_spec(addr, b) == Err::<EchoReply, PingError>(
            PingError::InvalidPacket(InvalidPacketError::PayloadTooShort {
                got: (b.len() - 4) as usize,
                want: 4usize,
            }),
        ),
{
}

} // verus!
