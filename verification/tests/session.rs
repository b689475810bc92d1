use pinger::checksum::checksum;
use pinger::display::display_frac_millis;
use pinger::message::ICMPMessage;
use pinger::probe::{done, make_echo_request, parse_echo_reply, Transmission};
use pinger::stats::compute_stats;

fn attempt(received: bool, nanos: u64) -> Transmission {
    Transmission { received, round_trip_time_nanos: nanos }
}

#[test]
fn done_with_and_without_maximum() {
    assert!(done(5, Some(5)));
    assert!(done(6, Some(5)));
    assert!(!done(4, Some(5)));
    assert!(!done(1_000_000, None));
}

#[test]
fn request_is_well_formed() {
    let (data, wire) = make_echo_request(0x1234, 3, 56);
    assert_eq!(data.len(), 56);
    assert_eq!(wire.len(), 64);
    // A correctly patched message sums to zero.
    assert_eq!(checksum(&wire), 0);
    let msg = ICMPMessage::try_from_bytes(&wire).unwrap();
    assert_eq!(msg.type_, 8);
    assert_eq!(msg.code, 0);
    assert_eq!(msg.identifier, 0x1234);
    assert_eq!(msg.sequence_number, 3);
    assert_eq!(msg.data, data);
}

fn wrap_in_datagram(icmp: &[u8], ttl: u8) -> Vec<u8> {
    let mut datagram = vec![0u8; 20];
    datagram[0] = 0x45;
    datagram[8] = ttl;
    datagram.extend_from_slice(icmp);
    datagram
}

#[test]
fn reply_round_trip_accepted() {
    let (data, wire) = make_echo_request(0xabcd, 1, 16);
    let datagram = wrap_in_datagram(&wire, 64);
    let (msg, ttl) = parse_echo_reply(&datagram, &data).unwrap();
    assert_eq!(ttl, 64);
    assert_eq!(msg.data, data);
    assert_eq!(msg.identifier, 0xabcd);
}

#[test]
fn reply_with_altered_payload_is_lost() {
    let (data, _wire) = make_echo_request(0xabcd, 1, 16);
    // A different payload, re-checksummed so the reply is self-consistent.
    let mut other = data.clone();
    other[7] ^= 0x01;
    let foreign = pinger::message::echo_message(0xabcd, 1, &other);
    let datagram = wrap_in_datagram(&foreign.as_bytes(), 64);
    assert_eq!(checksum(&foreign.as_bytes()), 0);
    assert!(parse_echo_reply(&datagram, &data).is_none());
}

#[test]
fn reply_with_corrupted_byte_is_lost() {
    let (data, wire) = make_echo_request(0xabcd, 1, 16);
    let mut datagram = wrap_in_datagram(&wire, 64);
    let last = datagram.len() - 1;
    datagram[last] ^= 0xff; // corrupts the payload and the checksum
    assert!(parse_echo_reply(&datagram, &data).is_none());
}

#[test]
fn truncated_reply_is_lost() {
    let (data, wire) = make_echo_request(7, 0, 8);
    let datagram = wrap_in_datagram(&wire, 64);
    assert!(parse_echo_reply(&datagram[..25], &data).is_none());
    assert!(parse_echo_reply(&[], &data).is_none());
}

#[test]
fn stats_zero_attempts() {
    let stats = compute_stats(&vec![]);
    assert_eq!(stats.transmitted, 0);
    assert_eq!(stats.received, 0);
    assert_eq!(stats.loss_percent, 0);
    assert_eq!(stats.rtt_min_nanos, 0);
    assert_eq!(stats.rtt_avg_nanos, 0);
    assert_eq!(stats.rtt_max_nanos, 0);
    assert_eq!(stats.rtt_mdev_nanos, 0);
}

#[test]
fn stats_all_received_no_loss() {
    let stats = compute_stats(&vec![attempt(true, 1000), attempt(true, 2000), attempt(true, 3000)]);
    assert_eq!(stats.transmitted, 3);
    assert_eq!(stats.received, 3);
    assert_eq!(stats.loss_percent, 0);
}

#[test]
fn stats_none_received_full_loss() {
    let stats = compute_stats(&vec![attempt(false, 1000), attempt(false, 2000)]);
    assert_eq!(stats.received, 0);
    assert_eq!(stats.loss_percent, 100);
}

#[test]
fn stats_partial_loss_rounded() {
    // 1 of 3 lost: 33.33... percent rounds to 33.
    let stats = compute_stats(&vec![attempt(true, 10), attempt(false, 20), attempt(true, 30)]);
    assert_eq!(stats.loss_percent, 33);
    // 2 of 3 lost: 66.66... percent rounds to 67.
    let stats = compute_stats(&vec![attempt(false, 10), attempt(false, 20), attempt(true, 30)]);
    assert_eq!(stats.loss_percent, 67);
}

#[test]
fn stats_four_known_round_trips() {
    // RTTs of 10, 20, 30 and 40 ms: avg 25 ms, min 10 ms, max 40 ms,
    // population stddev sqrt(125) ~ 11.180339 ms.
    let stats = compute_stats(&vec![
        attempt(true, 10_000_000),
        attempt(true, 20_000_000),
        attempt(true, 30_000_000),
        attempt(true, 40_000_000),
    ]);
    assert_eq!(stats.transmitted, 4);
    assert_eq!(stats.received, 4);
    assert_eq!(stats.loss_percent, 0);
    assert_eq!(stats.rtt_min_nanos, 10_000_000);
    assert_eq!(stats.rtt_avg_nanos, 25_000_000);
    assert_eq!(stats.rtt_max_nanos, 40_000_000);
    assert_eq!(stats.rtt_mdev_nanos, 11_180_339);
}

#[test]
fn stats_min_max_include_lost_attempts() {
    let stats = compute_stats(&vec![attempt(true, 5000), attempt(false, 9000)]);
    assert_eq!(stats.rtt_min_nanos, 5000);
    assert_eq!(stats.rtt_max_nanos, 9000);
    assert_eq!(stats.rtt_avg_nanos, 7000);
}

#[test]
fn display_whole_and_fraction() {
    assert_eq!(display_frac_millis(12_345_678), "12.345");
    assert_eq!(display_frac_millis(11_180_339), "11.180");
    assert_eq!(display_frac_millis(0), "0.000");
}

#[test]
fn display_pads_fraction_on_the_left() {
    // The microsecond remainder is always three digits, zero-padded on
    // the left, so small remainders keep their magnitude.
    assert_eq!(display_frac_millis(5_000), "0.005");
    assert_eq!(display_frac_millis(42_000), "0.042");
    assert_eq!(display_frac_millis(12_045_000), "12.045");
    assert_eq!(display_frac_millis(2_000_123_000), "2000.123");
}
