use vstd::prelude::*;

use crate::addr::IpAddress;
use crate::error::PingError;

pub mod v4;
pub mod v6;

verus! {

/// One echo request as the caller means it: where it goes, which probe it
/// is, and how many zero payload bytes it carries.
#[derive(Debug, Clone, Copy)]
pub struct EchoPacket {
    pub to_addr: IpAddress,
    pub ident: u16,
    pub seq: u16,
    pub size: usize,
}

impl EchoPacket {
    fn new(to_addr: IpAddress, ident: u16, seq: u16, size: usize) -> (r: Self)
        ensures
            r == (EchoPacket { to_addr, ident, seq, size }),
    {
        Self { to_addr, ident, seq, size }
    }
}

/// One decoded echo reply: the time-to-live where the family exposes it,
/// the source address, and the identifier, sequence number and payload
/// size read from the wire.
#[derive(Debug, Clone, Copy)]
pub struct EchoReply {
    pub ttl: Option<u8>,
    pub source: IpAddress,
    pub seq: u16,
    pub ident: u16,
    pub size: usize,
}

/// The big-endian high byte of a 16-bit value.
pub open spec fn spec_hi(x: u16) -> u8 {
    (x / 256) as u8
}

/// The big-endian low byte of a 16-bit value.
pub open spec fn spec_lo(x: u16) -> u8 {
    (x % 256) as u8
}

/// The 16-bit value read big-endian from two bytes.
pub open spec fn spec_be16(hi: u8, lo: u8) -> u16 {
    ((hi as int) * 256 + (lo as int)) as u16
}

pub fn be16_hi(x: u16) -> (r: u8)
    ensures
        r == spec_hi(x),
{
    (x / 256) as u8
}

pub fn be16_lo(x: u16) -> (r: u8)
    ensures
        r == spec_lo(x),
{
    (x % 256) as u8
}

pub fn be16_join(hi: u8, lo: u8) -> (r: u16)
    ensures
        r == spec_be16(hi, lo),
{
    (hi as u16) * 256 + (lo as u16)
}

/// Reading the two bytes back gives the value that was split.
pub proof fn lemma_be16_roundtrip(x: u16)
    ensures
        spec_be16(spec_hi(x), spec_lo(x)) == x,
{
}

/// A buffer of `n` zero bytes.
pub fn zero_buffer(n: usize) -> (v: Vec<u8>)
    ensures
        v@ == Seq::new(n as nat, |i: int| 0u8),
{
    let mut v: Vec<u8> = Vec::new();
    while v.len() < n
        invariant
            v@.len() <= n,
            forall|i: int| 0 <= i < v@.len() ==> v@[i] == 0u8,
        decreases n - v@.len(),
    {
        v.push(0);
    }
    proof {
        assert(v@ =~= Seq::new(n as nat, |i: int| 0u8));
    }
    v
}

/// Encodes one echo request into the family's on-wire bytes.
pub trait EchoEncoder {
    /// The exact bytes this family writes for `p`.
    spec fn spec_encode(p: EchoPacket) -> Seq<u8>;

    /// Frames `p`. Succeeds on every request whose total size fits the
    /// family's 16-bit length framing.
    fn encode(p: EchoPacket) -> (r: Result<Vec<u8>, PingError>)
        requires
            p.size + 8 <= 0xffff,
        ensures
            (r matches Ok(buf) && buf@ == Self::spec_encode(p)),
    ;
}

/// Decodes what the transport surfaced for the family into an echo reply.
pub trait EchoDecoder {
    /// The decode as a function of the raw bytes alone.
    spec fn spec_decode(addr: IpAddress, b: Seq<u8>) -> Result<EchoReply, PingError>;

    /// Never panics, whatever the bytes hold; the contract says exactly
    /// which replies and which errors come back.
    fn decode(addr: IpAddress, buf: &[u8]) -> (r: Result<EchoReply, PingError>)
        ensures
            r == Self::spec_decode(addr, buf@),
    ;
}

/// The bytes this library sends for a probe to `to_addr`, chosen by the
/// address's family.
pub open spec fn spec_encode_request(to_addr: IpAddress, ident: u16, seq: u16, size: usize) -> Seq<u8> {
    let p = EchoPacket { to_addr, ident, seq, size };
    if to_addr is V4 {
        v4::IPv4EchoEncoder::spec_encode(p)
    } else {
        v6::IPv6EchoEncoder::spec_encode(p)
    }
}

/// What decoding `b` yields for a probe aimed at `addr`, chosen by the
/// address's family.
pub open spec fn spec_decode_reply(addr: IpAddress, b: Seq<u8>) -> Result<EchoReply, PingError> {
    if addr is V4 {
        v4::IPv4EchoDecoder::spec_decode(addr, b)
    } else {
        v6::IPv6EchoDecoder::spec_decode(addr, b)
    }
}

/// Frames one echo request for `to_addr`; the single point where the
/// address family picks the codec.
pub fn encode_echo_request(to_addr: IpAddress, ident: u16, seq: u16, size: usize) -> (r: Result<
    Vec<u8>,
    PingError,
>)
    requires
        size + 8 <= 0xffff,
    ensures
        (r matches Ok(buf) && buf@ == spec_encode_request(to_addr, ident, seq, size)),
{
    let packet = EchoPacket::new(to_addr, ident, seq, size);
    if to_addr.is_ipv4() {
        v4::IPv4EchoEncoder::encode(packet)
    } else {
        v6::IPv6EchoEncoder::encode(packet)
    }
}

/// Decodes one received buffer for a probe aimed at `addr`; the single
/// point where the address family picks the codec.
pub fn decode_echo_reply(addr: IpAddress, buf: &[u8]) -> (r: Result<EchoReply, PingError>)
    ensures
        r == spec_decode_reply(addr, buf@),
{
    if addr.is_ipv4() {
        v4::IPv4EchoDecoder::decode(addr, buf)
    } else {
        v6::IPv6EchoDecoder::decode(addr, buf)
    }
}

} // verus!
