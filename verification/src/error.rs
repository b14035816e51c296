use vstd::prelude::*;

verus! {

/// Reasons a byte buffer could not be parsed as the expected framing.
#[derive(Debug, Clone, Copy, PartialEq, Eq, Structural)]
pub enum InvalidPacketError {
    /// The buffer is too short to hold an IPv4 header.
    NotIpv4Packet,
    /// The bytes after the IPv4 header are too short to hold an ICMP header.
    NotIcmpPacket,
    /// The buffer is too short to hold an ICMPv6 header.
    NotIcmpv6Packet,
    /// The message is an echo reply but its payload is too short to carry
    /// the identifier and sequence number.
    PayloadTooShort { got: usize, want: usize },
}

/// Everything that can go wrong while probing: codec failures, transport
/// failures, and the bounded wait running out.
#[derive(Debug, Clone, Copy, PartialEq, Eq, Structural)]
pub enum PingError {
    /// A buffer was too small to frame the requested packet.
    IncorrectBufferSize,
    /// The received bytes do not parse as the family's framing at all.
    InvalidPacket(InvalidPacketError),
    /// The transport failed outright (not a timeout). The underlying OS
    /// error stays with the caller that performed the I/O.
    IOError,
    /// A well-formed ICMP message whose type is not Echo Reply; carries the
    /// observed type value.
    NotEchoReply(u8),
    /// A well-formed ICMPv6 message whose type is not Echo Reply; carries
    /// the observed type value.
    NotV6EchoReply(u8),
    /// The wait budget ran out; carries the sequence number that was awaited.
    Timeout(u16),
    /// A valid but irrelevant ICMP message.
    OtherICMP,
}

} // verus!
