use pinger::checksum::checksum;
use pinger::datagram::{extract_icmp_message, extract_ttl};
use pinger::message::{compute_checksum, echo_message, validate_reply, ICMPMessage};

#[test]
fn checksum_known_vector() {
    // 0x0001 + 0xf203 + 0xf4f5 + 0xf6f7 = 0x2ddf0; fold: 0xddf0 + 2 = 0xddf2;
    // complement: 0x220d.
    let bytes = [0x00u8, 0x01, 0xf2, 0x03, 0xf4, 0xf5, 0xf6, 0xf7];
    assert_eq!(checksum(&bytes), 0x220d);
}

#[test]
fn checksum_empty_input() {
    assert_eq!(checksum(&[]), 0xffff);
}

#[test]
fn checksum_odd_length() {
    // A lone byte is the high half of a word: 0xff00; complement 0x00ff.
    assert_eq!(checksum(&[0xffu8]), 0x00ff);
    // Even input for comparison: 0xff00 + padless second word.
    assert_eq!(checksum(&[0xffu8, 0x00]), 0x00ff);
}

#[test]
fn checksum_of_patched_message_is_zero() {
    let msg = echo_message(0x1234, 7, b"abcdef");
    let bytes = msg.as_bytes();
    assert_eq!(checksum(&bytes), 0);
    // Odd total length as well.
    let msg = echo_message(0xbeef, 3, b"abc");
    let bytes = msg.as_bytes();
    assert_eq!(checksum(&bytes), 0);
}

#[test]
fn codec_round_trip() {
    let m = echo_message(0x1234, 42, b"payload bytes");
    let bytes = m.as_bytes();
    let back = ICMPMessage::try_from_bytes(&bytes).unwrap();
    assert_eq!(back.type_, 8);
    assert_eq!(back.code, 0);
    assert_eq!(back.checksum, m.checksum);
    assert_eq!(back.identifier, 0x1234);
    assert_eq!(back.sequence_number, 42);
    assert_eq!(back.data, b"payload bytes".to_vec());
}

#[test]
fn codec_round_trip_empty_payload() {
    let m = echo_message(1, 0, b"");
    let bytes = m.as_bytes();
    assert_eq!(bytes.len(), 8);
    let back = ICMPMessage::try_from_bytes(&bytes).unwrap();
    assert_eq!(back.identifier, 1);
    assert_eq!(back.sequence_number, 0);
    assert!(back.data.is_empty());
}

#[test]
fn decode_truncated_header_fails() {
    assert!(ICMPMessage::try_from_bytes(&[8u8, 0, 0, 0, 0, 0, 0]).is_none());
    assert!(ICMPMessage::try_from_bytes(&[]).is_none());
}

#[test]
fn echo_message_checksum_matches_recomputation() {
    let msg = echo_message(0xabcd, 9, b"xyz");
    assert_eq!(msg.checksum, compute_checksum(&msg));
}

#[test]
fn reply_payload_mismatch_rejected() {
    // A self-consistent message whose payload differs in a single byte
    // from what was sent must be rejected.
    let reply = echo_message(77, 5, b"aXc");
    assert_eq!(compute_checksum(&reply), reply.checksum);
    assert!(!validate_reply(&reply, b"abc"));
    // The same payload is accepted.
    assert!(validate_reply(&reply, b"aXc"));
}

#[test]
fn reply_bad_checksum_rejected() {
    let mut reply = echo_message(77, 5, b"abc");
    reply.checksum = reply.checksum.wrapping_add(1);
    assert!(!validate_reply(&reply, b"abc"));
}

#[test]
fn extract_payload_length() {
    // IHL 5: a 20-byte header; everything after it comes back.
    let mut datagram = vec![0u8; 20];
    datagram[0] = 0x45;
    datagram.extend_from_slice(&[1, 2, 3, 4, 5]);
    let payload = extract_icmp_message(&datagram).unwrap();
    assert_eq!(payload.len(), datagram.len() - 20);
    assert_eq!(payload, &[1, 2, 3, 4, 5]);
}

#[test]
fn extract_exact_header_gives_empty_payload() {
    let mut datagram = vec![0u8; 20];
    datagram[0] = 0x45;
    let payload = extract_icmp_message(&datagram).unwrap();
    assert!(payload.is_empty());
}

#[test]
fn extract_short_datagram_fails() {
    // Declared header of 15 words (60 bytes) but only 30 bytes present.
    let mut datagram = vec![0u8; 30];
    datagram[0] = 0x4f;
    assert!(extract_icmp_message(&datagram).is_none());
    assert!(extract_icmp_message(&[]).is_none());
}

#[test]
fn ttl_read_at_fixed_offset() {
    let mut datagram = vec![0u8; 40];
    datagram[0] = 0x46; // header length 24: no effect on the TTL offset
    datagram[8] = 64;
    assert_eq!(extract_ttl(&datagram), 64);
    datagram[0] = 0x45;
    assert_eq!(extract_ttl(&datagram), 64);
}
