use pretty_ping::addr::IpAddress;
use pretty_ping::checksum::icmp_checksum;
use pretty_ping::error::{InvalidPacketError, PingError};
use pretty_ping::packet::v4::{IPv4EchoDecoder, IPv4EchoEncoder, ICMP_ECHO_REPLY};
use pretty_ping::packet::v6::{IPv6EchoDecoder, IPv6EchoEncoder, ICMPV6_ECHO_REPLY};
use pretty_ping::packet::{
    be16_join, decode_echo_reply, encode_echo_request, EchoDecoder, EchoEncoder, EchoPacket,
};

fn v4_addr() -> IpAddress {
    // 192.0.2.1
    IpAddress::V4(0xc0000201)
}

fn v6_addr() -> IpAddress {
    // 2001:db8::1
    IpAddress::V6(0x2001_0db8_0000_0000_0000_0000_0000_0001)
}

/// A minimal IPv4 header (version 4, header length 5 words) carrying `ttl`,
/// followed by `icmp`, the way a raw IPv4 socket surfaces a datagram.
fn wrap_ipv4(ttl: u8, icmp: &[u8]) -> Vec<u8> {
    let mut wire = vec![0u8; 20];
    wire[0] = 0x45;
    wire[8] = ttl;
    wire.extend_from_slice(icmp);
    wire
}

#[test]
fn v4_encode_layout() {
    let p = EchoPacket { to_addr: v4_addr(), ident: 0x1234, seq: 7, size: 56 };
    let buf = IPv4EchoEncoder::encode(p).unwrap();
    assert_eq!(buf.len(), 64);
    assert_eq!(buf[0], 8); // echo request
    assert_eq!(buf[1], 0); // code
    assert_eq!(buf[4], 0x12);
    assert_eq!(buf[5], 0x34);
    assert_eq!(buf[6], 0x00);
    assert_eq!(buf[7], 0x07);
    assert!(buf[8..].iter().all(|&b| b == 0));
}

#[test]
fn v4_checksum_recomputes() {
    let p = EchoPacket { to_addr: v4_addr(), ident: 0x1234, seq: 7, size: 56 };
    let buf = IPv4EchoEncoder::encode(p).unwrap();
    let stored = be16_join(buf[2], buf[3]);
    let mut zeroed = buf.clone();
    zeroed[2] = 0;
    zeroed[3] = 0;
    assert_eq!(icmp_checksum(&zeroed), stored);
}

#[test]
fn v4_round_trip() {
    let p = EchoPacket { to_addr: v4_addr(), ident: 0x1234, seq: 7, size: 56 };
    let mut icmp = IPv4EchoEncoder::encode(p).unwrap();
    icmp[0] = ICMP_ECHO_REPLY; // what the remote host sends back
    let wire = wrap_ipv4(64, &icmp);
    let reply = IPv4EchoDecoder::decode(v4_addr(), &wire).unwrap();
    assert_eq!(reply.ident, 0x1234);
    assert_eq!(reply.seq, 7);
    assert_eq!(reply.ttl, Some(64));
    assert_eq!(reply.size, 64);
    assert_eq!(reply.source, v4_addr());
}

#[test]
fn v6_encode_layout_and_no_checksum() {
    let p = EchoPacket { to_addr: v6_addr(), ident: 0xbeef, seq: 3, size: 5 };
    let buf = IPv6EchoEncoder::encode(p).unwrap();
    assert_eq!(buf.len(), 13);
    assert_eq!(buf[0], 128); // echo request
    assert_eq!(buf[1], 0);
    // the codec never fills the checksum field; the kernel owns it
    assert_eq!(buf[2], 0);
    assert_eq!(buf[3], 0);
    assert_eq!(buf[4], 0xbe);
    assert_eq!(buf[5], 0xef);
    assert_eq!(buf[6], 0x00);
    assert_eq!(buf[7], 0x03);
    assert!(buf[8..].iter().all(|&b| b == 0));
}

#[test]
fn v6_round_trip() {
    let p = EchoPacket { to_addr: v6_addr(), ident: 0x4242, seq: 9, size: 56 };
    let mut buf = IPv6EchoEncoder::encode(p).unwrap();
    buf[0] = ICMPV6_ECHO_REPLY;
    let reply = IPv6EchoDecoder::decode(v6_addr(), &buf).unwrap();
    assert_eq!(reply.ident, 0x4242);
    assert_eq!(reply.seq, 9);
    assert_eq!(reply.ttl, None); // IPv6 raw sockets expose no hop limit here
    assert_eq!(reply.size, 56);
    assert_eq!(reply.source, v6_addr());
}

#[test]
fn v4_short_buffer_is_malformed() {
    let r = IPv4EchoDecoder::decode(v4_addr(), &[0u8; 19]);
    assert_eq!(
        r.unwrap_err(),
        PingError::InvalidPacket(InvalidPacketError::NotIpv4Packet)
    );
    let r = IPv4EchoDecoder::decode(v4_addr(), &[]);
    assert_eq!(
        r.unwrap_err(),
        PingError::InvalidPacket(InvalidPacketError::NotIpv4Packet)
    );
}

#[test]
fn v4_truncated_icmp_is_malformed() {
    // a full IP header but only 2 payload bytes behind it
    let wire = wrap_ipv4(64, &[0, 0]);
    let r = IPv4EchoDecoder::decode(v4_addr(), &wire);
    assert_eq!(
        r.unwrap_err(),
        PingError::InvalidPacket(InvalidPacketError::NotIcmpPacket)
    );
}

#[test]
fn v4_short_echo_reply_payload() {
    // type Echo Reply, but nothing behind the 4-byte ICMP header
    let wire = wrap_ipv4(64, &[ICMP_ECHO_REPLY, 0, 0, 0, 0]);
    let r = IPv4EchoDecoder::decode(v4_addr(), &wire);
    assert_eq!(
        r.unwrap_err(),
        PingError::InvalidPacket(InvalidPacketError::PayloadTooShort { got: 5, want: 8 })
    );
}

#[test]
fn v4_type_mismatch_carries_observed_type() {
    let p = EchoPacket { to_addr: v4_addr(), ident: 1, seq: 1, size: 8 };
    let icmp = IPv4EchoEncoder::encode(p).unwrap(); // type stays echo request (8)
    let wire = wrap_ipv4(64, &icmp);
    let r = IPv4EchoDecoder::decode(v4_addr(), &wire);
    assert_eq!(r.unwrap_err(), PingError::NotEchoReply(8));

    // destination unreachable (type 3)
    let wire = wrap_ipv4(64, &[3, 0, 0, 0, 0, 0, 0, 0]);
    let r = IPv4EchoDecoder::decode(v4_addr(), &wire);
    assert_eq!(r.unwrap_err(), PingError::NotEchoReply(3));
}

#[test]
fn v6_short_buffer_is_malformed() {
    let r = IPv6EchoDecoder::decode(v6_addr(), &[129, 0, 0]);
    assert_eq!(
        r.unwrap_err(),
        PingError::InvalidPacket(InvalidPacketError::NotIcmpv6Packet)
    );
}

#[test]
fn v6_payload_too_short() {
    let r = IPv6EchoDecoder::decode(v6_addr(), &[ICMPV6_ECHO_REPLY, 0, 0, 0, 1, 2]);
    assert_eq!(
        r.unwrap_err(),
        PingError::InvalidPacket(InvalidPacketError::PayloadTooShort { got: 2, want: 4 })
    );
}

#[test]
fn v6_type_mismatch_carries_observed_type() {
    // an echo request (128), as another pinger on the host would send
    let r = IPv6EchoDecoder::decode(v6_addr(), &[128, 0, 0, 0, 0, 1, 0, 2]);
    assert_eq!(r.unwrap_err(), PingError::NotV6EchoReply(128));
}

#[test]
fn v4_header_with_options() {
    // header length 6 words: 24 header bytes, the ICMP message behind them
    let mut wire = vec![0u8; 24];
    wire[0] = 0x46;
    wire[8] = 51;
    wire.extend_from_slice(&[ICMP_ECHO_REPLY, 0, 0, 0, 0xab, 0xcd, 0x00, 0x2a]);
    let reply = IPv4EchoDecoder::decode(v4_addr(), &wire).unwrap();
    assert_eq!(reply.ident, 0xabcd);
    assert_eq!(reply.seq, 42);
    assert_eq!(reply.ttl, Some(51));
    assert_eq!(reply.size, 8);
}

#[test]
fn v4_header_length_past_buffer() {
    // the low nibble claims 15 words (60 bytes) of header in a 20-byte buffer
    let mut wire = vec![0u8; 20];
    wire[0] = 0x4f;
    let r = IPv4EchoDecoder::decode(v4_addr(), &wire);
    assert_eq!(
        r.unwrap_err(),
        PingError::InvalidPacket(InvalidPacketError::NotIcmpPacket)
    );
}

#[test]
fn dispatch_follows_family() {
    let b4 = encode_echo_request(v4_addr(), 10, 20, 4).unwrap();
    assert_eq!(b4[0], 8);
    let b6 = encode_echo_request(v6_addr(), 10, 20, 4).unwrap();
    assert_eq!(b6[0], 128);

    // the same bytes mean different things per family
    let mut reply6 = vec![ICMPV6_ECHO_REPLY, 0, 0, 0, 0, 10, 0, 20];
    let r = decode_echo_reply(v6_addr(), &reply6).unwrap();
    assert_eq!((r.ident, r.seq), (10, 20));
    reply6.pop();
    let r = decode_echo_reply(v4_addr(), &reply6);
    assert_eq!(
        r.unwrap_err(),
        PingError::InvalidPacket(InvalidPacketError::NotIpv4Packet)
    );
}

#[test]
fn checksum_known_values() {
    assert_eq!(icmp_checksum(&[]), 0xffff);
    assert_eq!(icmp_checksum(&[0x00, 0x01]), 0xfffe);
    // a trailing odd byte counts as the high byte of a final word
    assert_eq!(icmp_checksum(&[0x12]), 0xedff);
    // end-around carry: 0xffff + 0xffff folds to 0xffff, complement 0
    assert_eq!(icmp_checksum(&[0xff, 0xff, 0xff, 0xff]), 0x0000);
    // carry across the fold: 0x8000 + 0x8001 = 0x10001 -> 0x0002 -> 0xfffd
    assert_eq!(icmp_checksum(&[0x80, 0x00, 0x80, 0x01]), 0xfffd);
}

#[test]
fn checksum_of_encoded_packet_validates_to_zero_sum() {
    // summing a checksummed packet, checksum included, must fold to 0xffff,
    // so the complement over the whole buffer is 0: how receivers verify
    let p = EchoPacket { to_addr: v4_addr(), ident: 0xa55a, seq: 513, size: 17 };
    let buf = IPv4EchoEncoder::encode(p).unwrap();
    assert_eq!(icmp_checksum(&buf), 0);
}
