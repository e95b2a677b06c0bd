use host_discovery::scanner::frame::build_arp_frame;
use host_discovery::{ipv4, scan, InterfaceInfo, Link, LinkEvent, MacAddr, Medium};
use host_discovery::{ScanConfig, ScanError, VendorDb};
use std::collections::HashMap;

const OUR_MAC: MacAddr = MacAddr(0x02, 0x42, 0xac, 0x11, 0x00, 0x02);
const RESPONDER: MacAddr = MacAddr(0x00, 0x1c, 0xb3, 0x0a, 0x0b, 0x0c);

fn us() -> InterfaceInfo {
    InterfaceInfo { ip: ipv4(192, 168, 1, 10), prefix_len: 29, mac: OUR_MAC }
}

fn config() -> ScanConfig {
    ScanConfig { tcp_ports: vec![22, 80, 443], ..ScanConfig::default() }
}

fn reply(sender_ip: u32, sender_mac: MacAddr) -> Vec<u8> {
    build_arp_frame(OUR_MAC, sender_mac, 2, sender_mac, sender_ip, OUR_MAC, us().ip)
}

#[test]
fn one_responder_end_to_end() {
    let host = ipv4(192, 168, 1, 12);
    let medium = Medium {
        link: Link::Open(vec![
            LinkEvent::RoundDue,
            LinkEvent::Frame(reply(host, RESPONDER)),
            LinkEvent::RoundDue,
            LinkEvent::RoundDue,
        ]),
        echoes: Some(HashMap::from([(host, vec![Some(1_250_000)])])),
        listeners: HashMap::from([(host, vec![false, true, false])]),
    };
    let results = scan(&us(), &config(), &medium, &VendorDb::load()).unwrap();
    assert_eq!(results.len(), 1);
    assert_eq!(results[0].ip, host);
    assert_eq!(results[0].mac, RESPONDER);
    assert_eq!(results[0].vendor, Some("Apple, Inc".to_string()));
    assert_eq!(results[0].latency_ns, Some(1_250_000));
    assert_eq!(results[0].open_ports, vec![80]);
    for d in [9u8, 10, 11, 13, 14] {
        assert!(results.iter().all(|r| r.ip != ipv4(192, 168, 1, d)));
    }
}

#[test]
fn no_responder_gives_no_result_and_no_error() {
    let medium = Medium {
        link: Link::Open(vec![LinkEvent::RoundDue, LinkEvent::RoundDue, LinkEvent::RoundDue]),
        echoes: Some(HashMap::new()),
        listeners: HashMap::new(),
    };
    let results = scan(&us(), &config(), &medium, &VendorDb::unavailable()).unwrap();
    assert!(results.is_empty());
}

#[test]
fn missing_echo_facility_leaves_latency_empty() {
    let host = ipv4(192, 168, 1, 12);
    let medium = Medium {
        link: Link::Open(vec![LinkEvent::Frame(reply(host, RESPONDER))]),
        echoes: None,
        listeners: HashMap::from([(host, vec![true, true, false])]),
    };
    let results = scan(&us(), &config(), &medium, &VendorDb::unavailable()).unwrap();
    assert_eq!(results.len(), 1);
    assert_eq!(results[0].latency_ns, None);
    assert_eq!(results[0].vendor, None);
    assert_eq!(results[0].open_ports, vec![22, 80]);
}

#[test]
fn later_phases_see_discovered_hosts_only() {
    let host = ipv4(192, 168, 1, 12);
    let silent = ipv4(192, 168, 1, 13);
    let medium = Medium {
        link: Link::Open(vec![LinkEvent::Frame(reply(host, RESPONDER))]),
        echoes: Some(HashMap::from([(host, vec![None, None]), (silent, vec![Some(5)])])),
        listeners: HashMap::from([(silent, vec![true, true, true])]),
    };
    let results = scan(&us(), &config(), &medium, &VendorDb::unavailable()).unwrap();
    assert_eq!(results.len(), 1);
    assert_eq!(results[0].ip, host);
    assert_eq!(results[0].latency_ns, None);
    assert_eq!(results[0].open_ports, Vec::<u16>::new());
}

#[test]
fn results_come_in_ascending_order() {
    let medium = Medium {
        link: Link::Open(vec![
            LinkEvent::Frame(reply(ipv4(192, 168, 1, 14), RESPONDER)),
            LinkEvent::Frame(reply(ipv4(192, 168, 1, 9), OUR_MAC)),
            LinkEvent::Frame(reply(ipv4(192, 168, 1, 11), RESPONDER)),
            LinkEvent::Frame(reply(ipv4(192, 168, 1, 15), RESPONDER)),
            LinkEvent::Frame(reply(ipv4(192, 168, 1, 8), RESPONDER)),
        ]),
        echoes: None,
        listeners: HashMap::new(),
    };
    let results = scan(&us(), &config(), &medium, &VendorDb::unavailable()).unwrap();
    let ips: Vec<u32> = results.iter().map(|r| r.ip).collect();
    assert_eq!(ips, vec![ipv4(192, 168, 1, 9), ipv4(192, 168, 1, 11), ipv4(192, 168, 1, 14)]);
}

#[test]
fn invalid_prefix_ends_the_scan() {
    let interface = InterfaceInfo { prefix_len: 40, ..us() };
    let medium =
        Medium { link: Link::Open(Vec::new()), echoes: None, listeners: HashMap::new() };
    let error = scan(&interface, &config(), &medium, &VendorDb::unavailable()).unwrap_err();
    assert!(matches!(error, ScanError::InvalidSubnet { prefix_len: 40 }));
    let closed = Medium {
        link: Link::Failed("permission denied".to_string()),
        echoes: None,
        listeners: HashMap::new(),
    };
    let error = scan(&interface, &config(), &closed, &VendorDb::unavailable()).unwrap_err();
    assert!(matches!(error, ScanError::InvalidSubnet { prefix_len: 40 }));
}

#[test]
fn link_that_cannot_be_opened_ends_the_scan() {
    let medium = Medium {
        link: Link::Failed("Operation not permitted: requires CAP_NET_RAW".to_string()),
        echoes: Some(HashMap::new()),
        listeners: HashMap::new(),
    };
    let error = scan(&us(), &config(), &medium, &VendorDb::unavailable()).unwrap_err();
    assert!(matches!(
        &error,
        ScanError::ChannelOpen { detail, needs_privilege: true }
            if detail == "Operation not permitted: requires CAP_NET_RAW"
    ));
    let medium = Medium {
        link: Link::Failed("No such device".to_string()),
        echoes: None,
        listeners: HashMap::new(),
    };
    let error = scan(&us(), &config(), &medium, &VendorDb::unavailable()).unwrap_err();
    assert!(matches!(&error, ScanError::ChannelOpen { needs_privilege: false, .. }));
    assert_eq!(error.message(), "Failed to open datalink channel: No such device");
}

#[test]
fn link_that_is_no_ethernet_channel_ends_the_scan() {
    let medium = Medium { link: Link::Unsupported, echoes: None, listeners: HashMap::new() };
    let error = scan(&us(), &config(), &medium, &VendorDb::unavailable()).unwrap_err();
    assert!(matches!(error, ScanError::UnsupportedChannel));
}
