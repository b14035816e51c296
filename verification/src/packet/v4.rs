use vstd::prelude::*;

use super::{
    be16_hi, be16_join, be16_lo, lemma_be16_roundtrip, spec_be16, spec_hi, spec_lo, zero_buffer,
    EchoDecoder, EchoEncoder, EchoPacket, EchoReply,
};
use crate::addr::IpAddress;
use crate::checksum::{checksum16, icmp_checksum, lemma_checksum16_bounds};
use crate::error::{InvalidPacketError, PingError};

verus! {

/// ICMP message type of an echo request.
pub const ICMP_ECHO_REQUEST: u8 = 8;

/// ICMP message type of an echo reply.
pub const ICMP_ECHO_REPLY: u8 = 0;

/// Byte `i` of an IPv4 echo request whose checksum field holds `c`: an
/// 8-byte ICMP header (type, code, checksum, identifier, sequence, the
/// numbers big-endian) followed by a zero payload.
pub open spec fn v4_request_byte(ident: u16, seq: u16, c: u16, i: int) -> u8 {
    if i == 0 {
        ICMP_ECHO_REQUEST
    } else if i == 2 {
        spec_hi(c)
    } else if i == 3 {
        spec_lo(c)
    } else if i == 4 {
        spec_hi(ident)
    } else if i == 5 {
        spec_lo(ident)
    } else if i == 6 {
        spec_hi(seq)
    } else if i == 7 {
        spec_lo(seq)
    } else {
        0u8
    }
}

/// The request bytes before the checksum is written.
pub open spec fn v4_request_unsummed(ident: u16, seq: u16, size: int) -> Seq<u8> {
    Seq::new((8 + size) as nat, |i: int| v4_request_byte(ident, seq, 0u16, i))
}

/// The exact on-wire bytes of an IPv4 echo request: as above, with the
/// ICMP checksum of the zero-checksum buffer written at bytes 2 and 3.
pub open spec fn v4_request_bytes(ident: u16, seq: u16, size: int) -> Seq<u8> {
    let c = checksum16(v4_request_unsummed(ident, seq, size)) as u16;
    Seq::new((8 + size) as nat, |i: int| v4_request_byte(ident, seq, c, i))
}

/// What decoding an IPv4 datagram yields. The buffer is the whole IP
/// datagram, as raw IPv4 sockets surface it: the ICMP message sits behind
/// the IP header, whose length the header's low nibble gives in words, and
/// the time-to-live is read from byte 8 of that outer header.
pub open spec fn v4_decode_spec(addr: IpAddress, b: Seq<u8>) -> Result<EchoReply, PingError> {
    if b.len() < 20 {
        Err(PingError::InvalidPacket(InvalidPacketError::NotIpv4Packet))
    } else {
        let off = (b[0] as int % 16) * 4;
        let pl = if off <= b.len() {
            b.skip(off)
        } else {
            Seq::<u8>::empty()
        };
        if pl.len() < 4 {
            Err(PingError::InvalidPacket(InvalidPacketError::NotIcmpPacket))
        } else if pl[0] != ICMP_ECHO_REPLY {
            Err(PingError::NotEchoReply(pl[0]))
        } else if pl.len() < 8 {
            Err(PingError::InvalidPacket(InvalidPacketError::PayloadTooShort {
                got: pl.len() as usize,
                want: 8usize,
            }))
        } else {
            Ok(EchoReply {
                ttl: Some(b[8]),
                source: addr,
                seq: spec_be16(pl[6], pl[7]),
                ident: spec_be16(pl[4], pl[5]),
                size: pl.len() as usize,
            })
        }
    }
}

/// Encodes IPv4 echo requests. The raw socket takes a bare ICMP packet,
/// and the checksum is this codec's to compute.
pub struct IPv4EchoEncoder {}

impl EchoEncoder for IPv4EchoEncoder {
    open spec fn spec_encode(p: EchoPacket) -> Seq<u8> {
        v4_request_bytes(p.ident, p.seq, p.size as int)
    }

    fn encode(p: EchoPacket) -> (r: Result<Vec<u8>, PingError>) {
        let total: usize = 8 + p.size;
        let mut buf = zero_buffer(total);
        buf.set(0, ICMP_ECHO_REQUEST);
        buf.set(4, be16_hi(p.ident));
        buf.set(5, be16_lo(p.ident));
        buf.set(6, be16_hi(p.seq));
        buf.set(7, be16_lo(p.seq));
        proof {
            assert(buf@ =~= v4_request_unsummed(p.ident, p.seq, p.size as int));
        }
        let c = icmp_checksum(buf.as_slice());
        buf.set(2, be16_hi(c));
        buf.set(3, be16_lo(c));
        proof {
            lemma_checksum16_bounds(v4_request_unsummed(p.ident, p.seq, p.size as int));
            assert(buf@ =~= v4_request_bytes(p.ident, p.seq, p.size as int));
        }
        Ok(buf)
    }
}

/// Decodes IPv4 replies out of whole IP datagrams.
pub struct IPv4EchoDecoder {}

impl EchoDecoder for IPv4EchoDecoder {
    open spec fn spec_decode(addr: IpAddress, b: Seq<u8>) -> Result<EchoReply, PingError> {
        v4_decode_spec(addr, b)
    }

    fn decode(addr: IpAddress, buf: &[u8]) -> (r: Result<EchoReply, PingError>) {
        let n: usize = buf.len();
        if n < 20 {
            return Err(PingError::InvalidPacket(InvalidPacketError::NotIpv4Packet));
        }
        let off: usize = ((buf[0] % 16) as usize) * 4;
        if off > n || n - off < 4 {
            return Err(PingError::InvalidPacket(InvalidPacketError::NotIcmpPacket));
        }
        let typ = buf[off];
        if typ != ICMP_ECHO_REPLY {
            return Err(PingError::NotEchoReply(typ));
        }
        if n - off < 8 {
            return Err(PingError::InvalidPacket(InvalidPacketError::PayloadTooShort {
                got: n - off,
                want: 8,
            }));
        }
        let ident = be16_join(buf[off + 4], buf[off + 5]);
        let seq = be16_join(buf[off + 6], buf[off + 7]);
        Ok(EchoReply { ttl: Some(buf[8]), source: addr, seq, ident, size: n - off })
    }
}

/// Re-running the checksum over an encoded request with the checksum field
/// zeroed yields exactly the checksum stored in the buffer.
pub proof fn lemma_v4_checksum_law(ident: u16, seq: u16, size: int)
    requires
        0 <= size,
        8 + size <= 0xffff,
    ensures
        ({
            let b = v4_request_bytes(ident, seq, size);
            spec_be16(b[2], b[3]) as int == checksum16(b.update(2, 0u8).update(3, 0u8))
        }),
{
    let u = v4_request_unsummed(ident, seq, size);
    let b = v4_request_bytes(ident, seq, size);
    lemma_checksum16_bounds(u);
    assert(b.update(2, 0u8).update(3, 0u8) =~= u);
    let c = checksum16(u) as u16;
    lemma_be16_roundtrip(c);
}

/// Round trip: an IPv4 datagram whose outer header is `h` (20 bytes,
/// version 4, header length 5 words) and whose payload is an encoded
/// request that the remote host echoed back with the type changed to Echo
/// Reply decodes to the identifier and sequence that were encoded; the
/// time-to-live comes from the outer header.
pub proof fn lemma_v4_round_trip(addr: IpAddress, h: Seq<u8>, ident: u16, seq: u16, size: int)
    requires
        0 <= size,
        8 + size <= 0xffff,
        h.len() == 20,
        h[0] == 0x45u8,
    ensures
        ({
            let wire = h + v4_request_bytes(ident, seq, size).update(0, ICMP_ECHO_REPLY);
            v4_decode_spec(addr, wire) == Ok::<EchoReply, PingError>(EchoReply {
                ttl: Some(h[8]),
                source: addr,
                seq: seq,
                ident: ident,
                size: (8 + size) as usize,
            })
        }),
{
    let icmp = v4_request_bytes(ident, seq, size).update(0, ICMP_ECHO_REPLY);
    let wire = h + icmp;
    assert(wire[0] == h[0]);
    assert((wire[0] as int % 16) * 4 == 20);
    assert(wire.skip(20) =~= icmp);
    assert(icmp[0] == ICMP_ECHO_REPLY);
    assert(icmp[4] == spec_hi(ident) && icmp[5] == spec_lo(ident));
    assert(icmp[6] == spec_hi(seq) && icmp[7] == spec_lo(seq));
    lemma_be16_roundtrip(ident);
    lemma_be16_roundtrip(seq);
    assert(wire[8] == h[8]);
}

/// A buffer shorter than one IPv4 header never decodes: it fails with the
/// malformed-packet error, whatever it holds.
pub proof fn lemma_v4_short_buffer(addr: IpAddress, b: Seq<u8>)
    requires
        b.len() < 20,
    ensures
        v4_decode_spec(addr, b) == Err::<EchoReply, PingError>(
            PingError::InvalidPacket(InvalidPacketError::NotIpv4Packet),
        ),
{
}

/// A well-formed datagram whose ICMP type is not Echo Reply fails with a
/// mismatch error carrying exactly the observed type value.
pub proof fn lemma_v4_type_mismatch(addr: IpAddress, b: Seq<u8>)
    requires
        b.len() >= 20,
        ({
            let off = (b[0] as int % 16) * 4;
            off + 4 <= b.len() && b[off] != ICMP_ECHO_REPLY
        }),
    ensures
        ({
            let off = (b[0] as int % 16) * 4;
            v4_decode_spec(addr, b) == Err::<EchoReply, PingError>(PingError::NotEchoReply(b[off]))
        }),
{
    let off = (b[0] as int % 16) * 4;
    assert(b.skip(off)[0] == b[off]);
}

} // verus!
