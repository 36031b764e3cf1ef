use icc::ping::{PingResult, PingUtility, Probe};
use icc::registry::{Address, Registry};

fn a(x: u32) -> Address {
    Address::V4(x)
}

#[test]
fn default_and_given_timeout() {
    assert_eq!(PingUtility::new(None).timeout(), 1000);
    let p = PingUtility::new(Some(200));
    assert_eq!(p.timeout(), 200);
    assert!(!p.round_timed_out(200));
    assert!(p.round_timed_out(201));
}

#[test]
fn add_then_remove_leaves_no_address() {
    let mut r = Registry::new();
    r.add(a(1));
    r.add(Address::V6(5));
    assert!(r.contains(&a(1)));
    r.remove(&a(1));
    assert!(!r.contains(&a(1)));
    assert!(r.contains(&Address::V6(5)));
    assert_eq!(r.len(), 1);
}

#[test]
fn remove_of_absent_address_is_a_no_op() {
    let mut r = Registry::new();
    r.add(a(3));
    r.remove(&a(4));
    assert_eq!(r.addresses(), vec![a(3)]);
}

#[test]
fn registry_keeps_address_order() {
    let mut r = Registry::new();
    r.add(Address::V6(1));
    r.add(a(9));
    r.add(a(2));
    r.add(a(9));
    assert_eq!(r.addresses(), vec![a(2), a(9), Address::V6(1)]);
    assert!(r.unseen().is_empty());
    r.reset_seen();
    assert_eq!(r.unseen(), vec![a(2), a(9), Address::V6(1)]);
    r.mark_seen(&a(9));
    r.mark_seen(&a(100));
    assert_eq!(r.unseen(), vec![a(2), Address::V6(1)]);
}

fn send_all(p: &mut PingUtility, addrs: &[Address]) -> Vec<Probe> {
    let mut probes = Vec::new();
    for ad in addrs {
        let pr = PingUtility::prepare_probe(*ad);
        let ev = p.record_request(&pr, true);
        assert_eq!(
            ev,
            PingResult::Request { addr: *ad, sequence: pr.sequence, identifier: pr.identifier, sent_success: true }
        );
        probes.push(pr);
    }
    probes
}

#[test]
fn unmatched_response_is_dropped() {
    let mut p = PingUtility::new(Some(200));
    p.add_address(a(1));
    let addrs = p.start_round();
    let probes = send_all(&mut p, &addrs);
    let pr = &probes[0];
    assert_eq!(p.handle_response(a(1), 5, pr.sequence.wrapping_add(1), pr.identifier), None);
    assert_eq!(p.handle_response(a(1), 5, pr.sequence, pr.identifier.wrapping_add(1)), None);
    assert_eq!(p.handle_response(a(2), 5, pr.sequence, pr.identifier), None);
    let end = p.finish_round();
    assert_eq!(end.timeouts, vec![PingResult::Timeout { addr: a(1) }]);
}

#[test]
fn matched_response_is_forwarded_once_per_round() {
    let mut p = PingUtility::new(Some(200));
    p.add_address(a(1));
    p.add_address(a(2));
    let addrs = p.start_round();
    let probes = send_all(&mut p, &addrs);
    let pr = &probes[1];
    assert_eq!(
        p.handle_response(a(2), 42, pr.sequence, pr.identifier),
        Some(PingResult::Response { addr: a(2), rtt: 42, sequence: pr.sequence, identifier: pr.identifier })
    );
    let end = p.finish_round();
    assert_eq!(end.timeouts, vec![PingResult::Timeout { addr: a(1) }]);
    assert!(end.next_round);
    // The record belongs to the finished round only.
    p.start_round();
    assert_eq!(p.handle_response(a(2), 42, pr.sequence, pr.identifier), None);
}

#[test]
fn failed_send_is_reported_and_not_tracked() {
    let mut p = PingUtility::new(Some(200));
    p.add_address(a(1));
    p.start_round();
    let pr = PingUtility::prepare_probe(a(1));
    assert_eq!(
        p.record_request(&pr, false),
        PingResult::Request { addr: a(1), sequence: pr.sequence, identifier: pr.identifier, sent_success: false }
    );
    assert_eq!(p.handle_response(a(1), 1, pr.sequence, pr.identifier), None);
}

#[test]
fn silent_addresses_time_out_every_round() {
    let mut p = PingUtility::new(Some(200));
    p.add_address(a(7));
    p.add_address(Address::V6(3));
    p.add_address(a(5));
    for _ in 0..5 {
        let addrs = p.start_round();
        send_all(&mut p, &addrs);
        let end = p.finish_round();
        assert_eq!(
            end.timeouts,
            vec![
                PingResult::Timeout { addr: a(5) },
                PingResult::Timeout { addr: a(7) },
                PingResult::Timeout { addr: Address::V6(3) },
            ]
        );
        assert!(end.next_round);
    }
}

#[test]
fn stop_signal_ends_after_current_round() {
    let mut p = PingUtility::new(Some(200));
    p.add_address(a(1));
    p.start_pinging();
    p.start_round();
    p.stop();
    let end = p.finish_round();
    assert_eq!(end.timeouts.len(), 1);
    assert!(!end.next_round);
    p.start_pinging();
    p.start_round();
    assert!(p.finish_round().next_round);
}

#[test]
fn ipv6_switch() {
    let mut p = PingUtility::new(None);
    assert!(!p.ipv6_enabled());
    p.enable_ipv6();
    assert!(p.ipv6_enabled());
    p.disable_ipv6();
    assert!(!p.ipv6_enabled());
}

#[test]
fn removed_address_is_no_longer_probed() {
    let mut p = PingUtility::new(None);
    p.add_address(a(1));
    p.add_address(a(2));
    p.remove_address(a(1));
    p.remove_address(a(9));
    assert_eq!(p.start_round(), vec![a(2)]);
}

#[test]
fn address_families_and_order() {
    assert!(a(1).is_ipv4());
    assert!(!a(1).is_ipv6());
    assert!(Address::V6(0).is_ipv6());
    assert!(a(u32::MAX).precedes(&Address::V6(0)));
    assert!(!Address::V6(0).precedes(&a(0)));
    assert!(a(1).precedes(&a(2)));
    assert!(!a(2).precedes(&a(2)));
    assert!(Address::V6(1).precedes(&Address::V6(2)));
}

#[test]
fn text_addresses_are_parsed() {
    let mut p = PingUtility::new(None);
    p.enable_ipv6();
    assert!(p.add_ipaddress("8.8.8.8"));
    assert!(p.add_ipaddress("::1"));
    assert!(p.add_ipaddress("1.1.1.1"));
    assert!(!p.add_ipaddress("1.2.3"));
    assert!(!p.add_ipaddress("example.org"));
    assert_eq!(
        p.start_round(),
        vec![Address::V4(0x01010101), Address::V4(0x08080808), Address::V6(1)]
    );
}

#[test]
fn text_add_then_remove() {
    let mut p = PingUtility::new(None);
    p.enable_ipv6();
    assert!(p.add_ipaddress("10.0.0.1"));
    assert!(p.add_ipaddress("2001:db8::1"));
    assert!(p.remove_ipaddress("10.0.0.1"));
    assert!(p.remove_ipaddress("10.0.0.9"));
    assert!(!p.remove_ipaddress("not an address"));
    assert_eq!(
        p.start_round(),
        vec![Address::V6(0x2001_0db8_0000_0000_0000_0000_0000_0001)]
    );
}

#[test]
fn ipv6_addresses_probed_only_when_enabled() {
    let mut p = PingUtility::new(Some(200));
    p.add_address(a(1));
    p.add_address(Address::V6(2));
    assert_eq!(p.start_round(), vec![a(1)]);
    let end = p.finish_round();
    assert_eq!(
        end.timeouts,
        vec![PingResult::Timeout { addr: a(1) }, PingResult::Timeout { addr: Address::V6(2) }]
    );
    p.enable_ipv6();
    assert_eq!(p.start_round(), vec![a(1), Address::V6(2)]);
}

#[test]
fn one_record_per_monitored_address() {
    let mut p = PingUtility::new(Some(200));
    p.add_address(a(1));
    p.start_round();
    assert!(p.is_monitored(a(1)));
    assert!(!p.is_monitored(a(2)));
    assert!(!p.has_record_for(a(1)));
    let pr = PingUtility::prepare_probe(a(1));
    p.record_request(&pr, true);
    assert!(p.has_record_for(a(1)));
    // Removing the address drops its record.
    p.remove_address(a(1));
    assert!(!p.has_record_for(a(1)));
    assert_eq!(p.handle_response(a(1), 1, pr.sequence, pr.identifier), None);
    p.add_address(a(1));
    p.finish_round();
    assert!(!p.has_record_for(a(1)));
}
