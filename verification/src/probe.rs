//! Per-attempt decisions of the probe loop: when a session is done,
//! building the next Echo Request around a fresh random payload, and
//! judging a received raw datagram. The surrounding loop — socket send
//! and receive, and the round-trip timer — lives outside the library and
//! hands raw bytes and elapsed times in.

use vstd::prelude::*;

verus! {

use crate::datagram::{extract_icmp_message, extract_ttl, spec_extract_icmp};
use crate::message::{
    echo_message, echo_request_view, spec_decode, spec_encode, spec_validate,
    validate_reply, ICMPMessage, MessageView,
};
use rand::Rng;

/// The outcome of one send/receive cycle. The round trip time runs from
/// the send to either the validated reply or the expiry of the timeout,
/// in nanoseconds.
#[derive(Clone, Copy, PartialEq, Eq, Structural, Debug)]
pub struct Transmission {
    pub received: bool,
    pub round_trip_time_nanos: u64,
}

/// Whether the session has transmitted as many attempts as its optional
/// maximum allows; with no maximum it never ends on its own.
pub fn done(transmitted: usize, max_transmitted: Option<usize>) -> (r: bool)
    ensures
        r == match max_transmitted {
            Some(max) => transmitted >= max,
            None => false,
        },
{
    match max_transmitted {
        Some(max) => transmitted >= max,
        None => false,
    }
}

/// Relies on rand's `thread_rng` and `Rng::fill` on a byte slice: the
/// slice is filled in place, so its length is unchanged. Nothing is
/// assumed of the bytes themselves.
#[verifier::external_body]
fn random_bytes(len: usize) -> (r: Vec<u8>)
    ensures
        r@.len() == len,
{
    let mut buf = vec![0u8; len];
    rand::thread_rng().fill(&mut buf[..]);
    buf
}

/// Draws a fresh random payload of `packet_size` bytes and builds the
/// Echo Request around it: returns the payload (kept for comparison with
/// the reply) and the request's wire bytes.
pub fn make_echo_request(identifier: u16, sequence_number: u16, packet_size: usize) -> (r: (
    Vec<u8>,
    Vec<u8>,
))
    ensures
        r.0@.len() == packet_size,
        r.1@ == spec_encode(echo_request_view(identifier, sequence_number, r.0@)),
{
    let data = random_bytes(packet_size);
    let msg = echo_message(identifier, sequence_number, data.as_slice());
    let bytes = msg.as_bytes();
    (data, bytes)
}

/// What judging one received raw datagram against the transmitted payload
/// yields: the decoded reply and the datagram's TTL when everything checks
/// out, nothing when the datagram is truncated, undecodable, or fails
/// checksum or payload validation (a lost attempt).
pub open spec fn spec_parse_reply(d: Seq<u8>, sent: Seq<u8>) -> Option<(MessageView, u8)> {
    match spec_extract_icmp(d) {
        Some(icmp) => match spec_decode(icmp) {
            Some(m) => if d.len() > 8 && spec_validate(m, sent) {
                Some((m, d[8]))
            } else {
                None
            },
            None => None,
        },
        None => None,
    }
}

/// Judges one received raw IP datagram: unwraps the ICMP payload, decodes
/// it, and validates checksum and payload against `data_sent`. Any failure
/// means the attempt counts as lost.
pub fn parse_echo_reply(datagram: &[u8], data_sent: &[u8]) -> (r: Option<(ICMPMessage, u8)>)
    ensures
        match r {
            Some((m, ttl)) => spec_parse_reply(datagram@, data_sent@) == Some((m@, ttl)),
            None => spec_parse_reply(datagram@, data_sent@) is None,
        },
{
    let icmp = match extract_icmp_message(datagram) {
        Some(icmp) => icmp,
        None => {
            return None;
        },
    };
    let msg = match ICMPMessage::try_from_bytes(icmp) {
        Some(msg) => msg,
        None => {
            return None;
        },
    };
    if datagram.len() <= 8 {
        return None;
    }
    let ttl = extract_ttl(datagram);
    if validate_reply(&msg, data_sent) {
        Some((msg, ttl))
    } else {
        None
    }
}

} // verus!
