use host_discovery::scanner::frame::build_arp_frame;
use host_discovery::{active_arp_scan, create_arp_request, ipv4};
use host_discovery::{ArpReply, ArpScan, DiscoveryTable, InterfaceInfo, LinkEvent, MacAddr, Subnet};
use std::collections::HashMap;

const OUR_MAC: MacAddr = MacAddr(0x02, 0x42, 0xac, 0x11, 0x00, 0x02);
const MAC_A: MacAddr = MacAddr(0xaa, 0, 0, 0, 0, 0x01);
const MAC_B: MacAddr = MacAddr(0xbb, 0, 0, 0, 0, 0x02);

fn us() -> InterfaceInfo {
    InterfaceInfo { ip: ipv4(192, 168, 1, 10), prefix_len: 29, mac: OUR_MAC }
}

fn subnet() -> Subnet {
    Subnet::new(ipv4(192, 168, 1, 10), 29).unwrap()
}

fn targets() -> Vec<u32> {
    (9..=14).map(|d| ipv4(192, 168, 1, d)).collect()
}

fn reply(sender_ip: u32, sender_mac: MacAddr) -> Vec<u8> {
    build_arp_frame(OUR_MAC, sender_mac, 2, sender_mac, sender_ip, OUR_MAC, us().ip)
}

#[test]
fn first_reply_for_an_address_wins() {
    let mut table = DiscoveryTable::new(subnet());
    let ip = ipv4(192, 168, 1, 12);
    assert!(table.record_reply(ArpReply { sender_ip: ip, sender_mac: MAC_A }));
    assert!(!table.record_reply(ArpReply { sender_ip: ip, sender_mac: MAC_B }));
    assert!(!table.record_reply(ArpReply { sender_ip: ip, sender_mac: MAC_A }));
    assert_eq!(table.len(), 1);
    assert_eq!(table.get(ip), Some(MAC_A));
}

#[test]
fn network_and_broadcast_replies_are_dropped() {
    let mut table = DiscoveryTable::new(subnet());
    assert!(!table.handle_frame(&reply(ipv4(192, 168, 1, 8), MAC_A)));
    assert!(!table.handle_frame(&reply(ipv4(192, 168, 1, 15), MAC_A)));
    assert!(table.is_empty());
    assert!(!table.contains(ipv4(192, 168, 1, 8)));
    assert!(!table.contains(ipv4(192, 168, 1, 15)));
}

#[test]
fn replies_from_outside_the_subnet_are_dropped() {
    let mut table = DiscoveryTable::new(subnet());
    assert!(!table.handle_frame(&reply(ipv4(192, 168, 1, 16), MAC_A)));
    assert!(!table.handle_frame(&reply(ipv4(192, 168, 1, 7), MAC_A)));
    assert!(!table.handle_frame(&reply(ipv4(10, 0, 0, 12), MAC_A)));
    assert!(table.is_empty());
}

#[test]
fn frames_that_are_no_replies_are_dropped() {
    let mut table = DiscoveryTable::new(subnet());
    assert!(!table.handle_frame(&[]));
    assert!(!table.handle_frame(&[0u8; 41]));
    assert!(!table.handle_frame(&[0u8; 60]));
    assert!(!table.handle_frame(&create_arp_request(MAC_A, ipv4(192, 168, 1, 12), us().ip)));
    assert!(table.is_empty());
    assert!(table.handle_frame(&reply(ipv4(192, 168, 1, 12), MAC_A)));
    assert_eq!(table.into_map(), HashMap::from([(ipv4(192, 168, 1, 12), MAC_A)]));
}

#[test]
fn remaining_keeps_order_and_skips_resolved() {
    let mut table = DiscoveryTable::new(subnet());
    assert_eq!(table.remaining(&targets()), targets());
    table.handle_frame(&reply(ipv4(192, 168, 1, 11), MAC_A));
    table.handle_frame(&reply(ipv4(192, 168, 1, 14), MAC_B));
    assert_eq!(
        table.remaining(&targets()),
        vec![
            ipv4(192, 168, 1, 9),
            ipv4(192, 168, 1, 10),
            ipv4(192, 168, 1, 12),
            ipv4(192, 168, 1, 13)
        ]
    );
    assert_eq!(table.remaining(&[]), Vec::<u32>::new());
}

#[test]
fn each_round_asks_only_for_unresolved_targets() {
    let mut scan = ArpScan::new(us(), subnet(), targets(), 3);
    assert_eq!(scan.rounds_left(), 3);
    let first = scan.next_round().unwrap();
    let all: Vec<Vec<u8>> =
        targets().iter().map(|ip| create_arp_request(OUR_MAC, us().ip, *ip)).collect();
    assert_eq!(first, all);
    assert!(scan.handle_frame(&reply(ipv4(192, 168, 1, 12), MAC_A)));
    assert!(scan.handle_frame(&reply(ipv4(192, 168, 1, 9), MAC_B)));
    let second = scan.next_round().unwrap();
    let expected: Vec<Vec<u8>> = [10u8, 11, 13, 14]
        .iter()
        .map(|d| create_arp_request(OUR_MAC, us().ip, ipv4(192, 168, 1, *d)))
        .collect();
    assert_eq!(second, expected);
    assert_eq!(scan.rounds_left(), 1);
    assert_eq!(scan.next_round().unwrap().len(), 4);
    assert_eq!(scan.rounds_left(), 0);
    assert_eq!(scan.next_round(), None);
    assert_eq!(scan.next_round(), None);
    assert_eq!(scan.table().len(), 2);
    let found = scan.finish();
    assert_eq!(found.get(&ipv4(192, 168, 1, 12)), Some(&MAC_A));
    assert_eq!(found.get(&ipv4(192, 168, 1, 9)), Some(&MAC_B));
}

#[test]
fn scan_without_rounds_sends_nothing() {
    let mut scan = ArpScan::new(us(), subnet(), targets(), 0);
    assert_eq!(scan.next_round(), None);
    assert!(scan.handle_frame(&reply(ipv4(192, 168, 1, 12), MAC_A)));
    assert_eq!(scan.finish().len(), 1);
}

#[test]
fn events_run_in_order() {
    let mut scan = ArpScan::new(us(), subnet(), targets(), 2);
    let events = vec![
        LinkEvent::Frame(reply(ipv4(192, 168, 1, 13), MAC_A)),
        LinkEvent::RoundDue,
        LinkEvent::Frame(reply(ipv4(192, 168, 1, 9), MAC_B)),
        LinkEvent::Frame(reply(ipv4(192, 168, 1, 13), MAC_B)),
        LinkEvent::RoundDue,
        LinkEvent::RoundDue,
    ];
    let sent = scan.run(&events);
    assert_eq!(sent.len(), 5 + 4);
    assert_eq!(sent[0], create_arp_request(OUR_MAC, us().ip, ipv4(192, 168, 1, 9)));
    assert_eq!(sent[5], create_arp_request(OUR_MAC, us().ip, ipv4(192, 168, 1, 10)));
    assert_eq!(scan.rounds_left(), 0);
    let found = scan.finish();
    assert_eq!(
        found,
        HashMap::from([(ipv4(192, 168, 1, 13), MAC_A), (ipv4(192, 168, 1, 9), MAC_B)])
    );
}

#[test]
fn no_responders_is_an_empty_map() {
    let events = vec![LinkEvent::RoundDue, LinkEvent::RoundDue, LinkEvent::RoundDue];
    let found = active_arp_scan(&us(), &targets(), &subnet(), 3, &events);
    assert!(found.is_empty());
    let found = active_arp_scan(&us(), &targets(), &subnet(), 3, &Vec::new());
    assert!(found.is_empty());
    let noise = vec![
        LinkEvent::Frame(vec![0u8; 64]),
        LinkEvent::Frame(create_arp_request(MAC_A, ipv4(192, 168, 1, 12), us().ip)),
        LinkEvent::Frame(reply(ipv4(192, 168, 1, 15), MAC_A)),
    ];
    assert!(active_arp_scan(&us(), &targets(), &subnet(), 3, &noise).is_empty());
}

#[test]
fn same_medium_gives_same_map() {
    let events = vec![
        LinkEvent::RoundDue,
        LinkEvent::Frame(reply(ipv4(192, 168, 1, 12), MAC_A)),
        LinkEvent::Frame(reply(ipv4(192, 168, 1, 12), MAC_B)),
        LinkEvent::RoundDue,
        LinkEvent::Frame(reply(ipv4(192, 168, 1, 14), MAC_B)),
        LinkEvent::Frame(reply(ipv4(192, 168, 1, 8), MAC_B)),
        LinkEvent::RoundDue,
    ];
    let first = active_arp_scan(&us(), &targets(), &subnet(), 3, &events);
    let second = active_arp_scan(&us(), &targets(), &subnet(), 3, &events);
    assert_eq!(first, second);
    assert_eq!(
        first,
        HashMap::from([(ipv4(192, 168, 1, 12), MAC_A), (ipv4(192, 168, 1, 14), MAC_B)])
    );
}

#[test]
fn second_pass_over_the_same_frames_changes_nothing() {
    let frames = vec![
        reply(ipv4(192, 168, 1, 12), MAC_A),
        reply(ipv4(192, 168, 1, 9), MAC_B),
        reply(ipv4(192, 168, 1, 12), MAC_B),
    ];
    let mut table = DiscoveryTable::new(subnet());
    for frame in &frames {
        table.handle_frame(frame);
    }
    let once: Vec<(u32, Option<MacAddr>)> =
        targets().iter().map(|ip| (*ip, table.get(*ip))).collect();
    for frame in &frames {
        assert!(!table.handle_frame(frame));
    }
    let twice: Vec<(u32, Option<MacAddr>)> =
        targets().iter().map(|ip| (*ip, table.get(*ip))).collect();
    assert_eq!(once, twice);
    assert_eq!(table.len(), 2);
}

#[test]
fn rounds_do_not_change_what_is_found() {
    let frames = vec![reply(ipv4(192, 168, 1, 12), MAC_A), reply(ipv4(192, 168, 1, 9), MAC_B)];
    let plain: Vec<LinkEvent> = frames.iter().cloned().map(LinkEvent::Frame).collect();
    let mut mixed = vec![LinkEvent::RoundDue];
    for frame in &frames {
        mixed.push(LinkEvent::Frame(frame.clone()));
        mixed.push(LinkEvent::RoundDue);
    }
    let a = active_arp_scan(&us(), &targets(), &subnet(), 0, &plain);
    let b = active_arp_scan(&us(), &targets(), &subnet(), 5, &mixed);
    assert_eq!(a, b);
    assert_eq!(a.len(), 2);
}
