use host_discovery::config::default_ports;
use host_discovery::{ipv4, tcp_probe_scan, PortProbe};
use std::collections::HashMap;

#[test]
fn open_ports_are_those_that_connected() {
    let mut probe = PortProbe::new(ipv4(192, 168, 1, 12), vec![22, 80, 443, 8080]);
    assert_eq!(probe.ip(), ipv4(192, 168, 1, 12));
    assert_eq!(probe.next_port(), Some(22));
    probe.record_attempt(false);
    assert_eq!(probe.next_port(), Some(80));
    probe.record_attempt(true);
    assert_eq!(probe.next_port(), Some(443));
    probe.record_attempt(false);
    assert_eq!(probe.next_port(), Some(8080));
    probe.record_attempt(true);
    assert_eq!(probe.next_port(), None);
    assert_eq!(probe.open_ports(), vec![80, 8080]);
    probe.record_attempt(true);
    assert_eq!(probe.open_ports(), vec![80, 8080]);
}

#[test]
fn host_without_open_ports_is_a_valid_result() {
    let mut probe = PortProbe::new(1, vec![22, 80]);
    probe.record_attempts(&vec![false, false]);
    assert_eq!(probe.open_ports(), Vec::<u16>::new());
    let empty = PortProbe::new(1, Vec::new());
    assert_eq!(empty.next_port(), None);
    assert_eq!(empty.open_ports(), Vec::<u16>::new());
}

#[test]
fn attempts_beyond_the_port_list_are_passed_over() {
    let mut probe = PortProbe::new(1, vec![22, 80]);
    probe.record_attempts(&vec![true, false, true, true]);
    assert_eq!(probe.open_ports(), vec![22]);
}

#[test]
fn scripted_port_phase() {
    let a = ipv4(192, 168, 1, 9);
    let b = ipv4(192, 168, 1, 12);
    let c = ipv4(192, 168, 1, 13);
    let ports: Vec<u16> = vec![22, 80, 443];
    let script = HashMap::from([
        (a, vec![false, false, false]),
        (b, vec![false, true, false]),
        (ipv4(192, 168, 1, 14), vec![true, true, true]),
    ]);
    let found = tcp_probe_scan(&[a, b, c], &ports, &script);
    assert_eq!(found, HashMap::from([(a, vec![]), (b, vec![80]), (c, vec![])]));
}

#[test]
fn default_port_list() {
    assert_eq!(
        default_ports(),
        vec![21, 22, 23, 25, 53, 80, 110, 139, 143, 443, 445, 3389, 8080]
    );
}
