//! Verified core of an ICMP Echo ("ping") probe: the RFC 1071 checksum,
//! the Echo message codec, the IP datagram unwrapper, the per-attempt
//! decisions of the probe loop, and the round-trip-time statistics.
//!
//! Socket I/O, hostname resolution and console output live outside this
//! library; they hand in plain values (addresses, sizes, raw datagrams)
//! and take plain values back.

pub mod checksum;
pub mod datagram;
pub mod display;
pub mod message;
pub mod probe;
pub mod stats;
