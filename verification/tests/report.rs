use host_discovery::{ipv4, HostResult, MacAddr, PingProbe, PortProbe, ScanReport, VendorDb};
use std::collections::HashMap;

const MAC_A: MacAddr = MacAddr(0x00, 0x1c, 0xb3, 0, 0, 0x01);
const MAC_B: MacAddr = MacAddr(0x02, 0, 0, 0, 0, 0x02);

fn targets() -> Vec<u32> {
    (9..=14).map(|d| ipv4(192, 168, 1, d)).collect()
}

fn found() -> HashMap<u32, MacAddr> {
    HashMap::from([(ipv4(192, 168, 1, 13), MAC_B), (ipv4(192, 168, 1, 10), MAC_A)])
}

#[test]
fn hosts_follow_the_order_of_the_targets() {
    let report = ScanReport::new(&targets(), &found());
    assert_eq!(report.hosts(), vec![ipv4(192, 168, 1, 10), ipv4(192, 168, 1, 13)]);
    assert_eq!(report.host_count(), 2);
    assert_eq!(report.mac_of(ipv4(192, 168, 1, 10)), Some(MAC_A));
    assert_eq!(report.mac_of(ipv4(192, 168, 1, 13)), Some(MAC_B));
    assert_eq!(report.mac_of(ipv4(192, 168, 1, 11)), None);
}

#[test]
fn repeated_targets_give_one_host() {
    let a = ipv4(192, 168, 1, 10);
    let b = ipv4(192, 168, 1, 13);
    let report = ScanReport::new(&[b, a, b, a, a], &found());
    assert_eq!(report.hosts(), vec![b, a]);
}

#[test]
fn addresses_that_are_no_targets_are_left_out() {
    let report = ScanReport::new(&[ipv4(192, 168, 1, 13)], &found());
    assert_eq!(report.hosts(), vec![ipv4(192, 168, 1, 13)]);
    assert_eq!(report.mac_of(ipv4(192, 168, 1, 10)), None);
}

#[test]
fn latency_is_recorded_only_for_discovered_hosts() {
    let mut report = ScanReport::new(&targets(), &found());
    assert!(!report.record_latency(ipv4(192, 168, 1, 11), 5_000));
    assert!(!report.record_latency(ipv4(10, 0, 0, 1), 5_000));
    assert!(report.record_latency(ipv4(192, 168, 1, 10), 7_000));
    let results = report.results(&VendorDb::unavailable());
    assert_eq!(results.len(), 2);
    assert_eq!(results[0].ip, ipv4(192, 168, 1, 10));
    assert_eq!(results[0].latency_ns, Some(7_000));
    assert_eq!(results[1].ip, ipv4(192, 168, 1, 13));
    assert_eq!(results[1].latency_ns, None);
}

#[test]
fn first_latency_recorded_stays() {
    let mut report = ScanReport::new(&targets(), &found());
    assert!(report.record_latency(ipv4(192, 168, 1, 10), 7_000));
    assert!(!report.record_latency(ipv4(192, 168, 1, 10), 9_000));
    let host = report.result_for(&VendorDb::unavailable(), ipv4(192, 168, 1, 10)).unwrap();
    assert_eq!(host.latency_ns, Some(7_000));
}

#[test]
fn unanswered_probe_records_nothing() {
    let mut report = ScanReport::new(&targets(), &found());
    let mut silent = PingProbe::new(ipv4(192, 168, 1, 10), 2);
    silent.record_attempts(&vec![None, None]);
    assert!(!report.record_probe(&silent));
    let mut answered = PingProbe::new(ipv4(192, 168, 1, 13), 2);
    answered.record_attempts(&vec![None, Some(1_500)]);
    assert!(report.record_probe(&answered));
    let mut stranger = PingProbe::new(ipv4(192, 168, 1, 11), 2);
    stranger.record_attempts(&vec![Some(1)]);
    assert!(!report.record_probe(&stranger));
    let results = report.results(&VendorDb::unavailable());
    assert_eq!(results[0].latency_ns, None);
    assert_eq!(results[1].latency_ns, Some(1_500));
}

#[test]
fn ports_are_recorded_only_for_discovered_hosts() {
    let mut report = ScanReport::new(&targets(), &found());
    assert!(!report.record_open_ports(ipv4(192, 168, 1, 11), vec![80]));
    assert!(report.record_open_ports(ipv4(192, 168, 1, 13), vec![22, 443]));
    assert!(!report.record_open_ports(ipv4(192, 168, 1, 13), vec![80]));
    let mut probe = PortProbe::new(ipv4(192, 168, 1, 10), vec![80, 443]);
    probe.record_attempts(&vec![true, false]);
    assert!(report.record_port_probe(&probe));
    let results = report.results(&VendorDb::unavailable());
    assert_eq!(results[0].open_ports, vec![80]);
    assert_eq!(results[1].open_ports, vec![22, 443]);
}

#[test]
fn merging_phase_maps_passes_over_strangers() {
    let mut report = ScanReport::new(&targets(), &found());
    let latencies = HashMap::from([
        (ipv4(192, 168, 1, 13), 2_000u64),
        (ipv4(192, 168, 1, 11), 3_000),
        (ipv4(8, 8, 8, 8), 4_000),
    ]);
    report.record_latencies(&latencies);
    let open = HashMap::from([
        (ipv4(192, 168, 1, 10), vec![80u16]),
        (ipv4(192, 168, 1, 12), vec![22]),
    ]);
    report.record_ports(&open);
    let results = report.results(&VendorDb::unavailable());
    assert_eq!(results.len(), 2);
    assert_eq!(results[0].latency_ns, None);
    assert_eq!(results[0].open_ports, vec![80]);
    assert_eq!(results[1].latency_ns, Some(2_000));
    assert_eq!(results[1].open_ports, Vec::<u16>::new());
    assert!(report.result_for(&VendorDb::unavailable(), ipv4(192, 168, 1, 11)).is_none());
    assert!(report.result_for(&VendorDb::unavailable(), ipv4(8, 8, 8, 8)).is_none());
}

#[test]
fn results_carry_the_vendor_of_the_hardware_address() {
    let report = ScanReport::new(&targets(), &found());
    let results: Vec<HostResult> = report.results(&VendorDb::load());
    assert_eq!(results[0].mac, MAC_A);
    assert_eq!(results[0].vendor, Some("Apple, Inc".to_string()));
    assert_eq!(results[1].mac, MAC_B);
    assert_eq!(results[1].vendor, None);
    let without = report.results(&VendorDb::unavailable());
    assert_eq!(without[0].vendor, None);
}

#[test]
fn nothing_discovered_gives_no_results() {
    let report = ScanReport::new(&targets(), &HashMap::new());
    assert_eq!(report.hosts(), Vec::<u32>::new());
    assert!(report.results(&VendorDb::unavailable()).is_empty());
}
