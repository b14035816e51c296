//! An ICMP/ICMPv6 echo ("ping") protocol engine: bit-exact encoding and
//! decoding of echo request/reply packets for both address families, and a
//! response-matching wait loop that spreads one timeout budget over any
//! number of receive attempts while ignoring unrelated traffic.
//!
//! Sending and receiving datagrams needs a raw socket; that, and all other
//! I/O, lives outside this crate. The crate works on plain byte buffers and
//! on events describing what one receive attempt yielded.

pub mod addr;
pub mod checksum;
pub mod engine;
pub mod error;
pub mod packet;
