use icc::codec::{echo_request_packet, parse_echo_reply, random_probe, EchoReply};
use icc::ping::PingUtility;
use icc::registry::Address;

#[test]
fn echo_request_bytes_with_checksum() {
    let p = echo_request_packet(8, 0x0001, 0x1234);
    assert_eq!(
        p,
        vec![8, 0, 0xE5, 0xCA, 0x12, 0x34, 0x00, 0x01, 0, 0, 0, 0, 0, 0, 0, 0]
    );
}

#[test]
fn echo_request_checksum_sums_to_all_ones() {
    let p = echo_request_packet(128, 0xBEEF, 0xFFFF);
    assert_eq!(p.len(), 16);
    let mut sum: u32 = 0;
    for i in 0..8 {
        sum += ((p[2 * i] as u32) << 8) | p[2 * i + 1] as u32;
    }
    while sum >> 16 != 0 {
        sum = (sum >> 16) + (sum & 0xFFFF);
    }
    assert_eq!(sum, 0xFFFF);
}

#[test]
fn random_probe_carries_its_numbers() {
    let pr = random_probe(8);
    assert_eq!(pr.packet[0], 8);
    assert_eq!(pr.packet[4], (pr.identifier >> 8) as u8);
    assert_eq!(pr.packet[5], pr.identifier as u8);
    assert_eq!(pr.packet[6], (pr.sequence >> 8) as u8);
    assert_eq!(pr.packet[7], pr.sequence as u8);
    assert_eq!(pr.packet, echo_request_packet(8, pr.sequence, pr.identifier));
}

#[test]
fn probes_by_family() {
    let v4 = PingUtility::prepare_probe(Address::V4(0x08080808));
    assert_eq!(v4.address, Address::V4(0x08080808));
    assert_eq!(v4.packet[0], 8);
    let v6 = PingUtility::prepare_probe(Address::V6(1));
    assert_eq!(v6.packet[0], 128);
    let direct = PingUtility::send_echov6_request(Address::V6(1));
    assert_eq!(direct.packet, echo_request_packet(128, direct.sequence, direct.identifier));
}

#[test]
fn parses_echo_replies_only() {
    let reply = [0u8, 0, 0xAA, 0xBB, 0x12, 0x34, 0x00, 0x07, 1, 2];
    assert_eq!(
        parse_echo_reply(&reply, false),
        Some(EchoReply { sequence: 7, identifier: 0x1234 })
    );
    assert_eq!(parse_echo_reply(&reply, true), None);
    let request = [8u8, 0, 0, 0, 0x12, 0x34, 0x00, 0x07];
    assert_eq!(parse_echo_reply(&request, false), None);
    let short = [0u8, 0, 0, 0, 1];
    assert_eq!(parse_echo_reply(&short, false), None);
    let v6 = [129u8, 0, 0, 0, 0, 9, 1, 0];
    assert_eq!(
        parse_echo_reply(&v6, true),
        Some(EchoReply { sequence: 256, identifier: 9 })
    );
}

#[test]
fn receiver_passes_on_echo_replies_only() {
    let reply = [0u8, 0, 0, 0, 0x00, 0x05, 0x00, 0x06];
    assert_eq!(
        PingUtility::decode_reply(&reply, false, Address::V4(4), 77),
        Some(icc::ping::PingResult::Response { addr: Address::V4(4), rtt: 77, sequence: 6, identifier: 5 })
    );
    let unreachable = [3u8, 1, 0, 0, 0, 0, 0, 0];
    assert_eq!(PingUtility::decode_reply(&unreachable, false, Address::V4(4), 77), None);
}
