//! A whole scan, phase after phase: the subnet is enumerated, link-layer
//! discovery finds the hosts, latency and port probing add to what is known
//! of them, and the host results are made of it all.
//!
//! Only the first two phases can end a scan: a prefix length that names no
//! network, a link that is not open as an Ethernet channel. What goes wrong
//! later leaves fields of the results empty.

use std::collections::HashMap;
use vstd::prelude::*;
use crate::config::ScanConfig;
use crate::models::{mentions_privilege, HostResult, InterfaceInfo, MacAddr, ScanError};
use crate::network::subnet::{
    calculate_subnet_ips,
    lemma_hosts_exact,
    lemma_subnet_of,
    subnet_of,
};
use crate::network::vendor::{text_view, VendorDb};
use crate::report::{
    lemma_nothing_found,
    lemma_report_covers_table,
    lemma_resolved_hosts,
    lemma_resolved_hosts_ascend,
    resolved_hosts,
    ScanReport,
};
use crate::scanner::arp::{
    acceptable,
    active_arp_scan,
    is_acceptable_reply,
    lemma_no_responders,
    lemma_only_hosts_enter,
    observe_all,
    received,
    LinkEvent,
};
use crate::scanner::icmp::{icmp_scan, probe_latency, scripted_outcomes};
use crate::scanner::tcp::{scripted_open_ports, tcp_probe_scan};
use crate::text::spec_mac_text;

verus! {

/// The link as a scan finds it: open, with what it delivers and when rounds
/// fall due; open, but no Ethernet channel; or not to be opened, with the text
/// of the cause.
pub enum Link {
    Open(Vec<LinkEvent>),
    Unsupported,
    Failed(String),
}

/// A medium written down: the link, how the echo attempts on each host end
/// (`None` where there is no echo facility at all), and how the connection
/// attempts on each host end.
pub struct Medium {
    pub link: Link,
    pub echoes: Option<HashMap<u32, Vec<Option<u64>>>>,
    pub listeners: HashMap<u32, Vec<bool>>,
}

/// What a link delivers: its events where it is open, nothing otherwise.
pub open spec fn delivered(link: Link) -> Seq<LinkEvent> {
    match link {
        Link::Open(events) => events@,
        _ => Seq::empty(),
    }
}

/// What discovery finds on a medium.
pub open spec fn found_on(interface: InterfaceInfo, medium: Medium) -> Map<u32, MacAddr> {
    observe_all(
        Map::empty(),
        subnet_of(interface.ip, interface.prefix_len),
        received(delivered(medium.link)),
    )
}

/// The hosts of a scan on a medium: the host addresses of the interface's
/// subnet that discovery resolves, in ascending order.
pub open spec fn hosts_on(interface: InterfaceInfo, medium: Medium) -> Seq<u32> {
    resolved_hosts(
        subnet_of(interface.ip, interface.prefix_len).hosts(),
        found_on(interface, medium),
    )
}

/// The latency of a host on a medium.
pub open spec fn latency_on(config: ScanConfig, medium: Medium, ip: u32) -> Option<u64> {
    match medium.echoes {
        Some(script) => probe_latency(config.ping_retries as nat, scripted_outcomes(script@, ip)),
        None => None,
    }
}

/// Whether `result` is what a scan on a medium tells of the host `ip`.
pub open spec fn result_on(
    interface: InterfaceInfo,
    config: ScanConfig,
    medium: Medium,
    vendors: &VendorDb,
    ip: u32,
    result: HostResult,
) -> bool {
    &&& result.ip == ip
    &&& result.mac == found_on(interface, medium)[ip]
    &&& text_view(result.vendor) == vendors.vendor(spec_mac_text(result.mac))
    &&& result.latency_ns == latency_on(config, medium, ip)
    &&& result.open_ports@ == scripted_open_ports(config.tcp_ports@, medium.listeners@, ip)
}

/// Runs a whole scan from `interface` on a medium written down. Two things
/// end it with an error: a prefix length above 32, and a link that is not
/// open as an Ethernet channel. Otherwise it yields one result for each host
/// that discovery resolves, in ascending order of address; with no responder
/// that is no result, and no failure.
pub fn scan(interface: &InterfaceInfo, config: &ScanConfig, medium: &Medium, vendors: &VendorDb) -> (r:
    Result<Vec<HostResult>, ScanError>)
    ensures
        r is Ok <==> interface.prefix_len <= 32 && medium.link is Open,
        interface.prefix_len > 32 ==> r == Err::<Vec<HostResult>, ScanError>(
            ScanError::InvalidSubnet { prefix_len: interface.prefix_len },
        ),
        interface.prefix_len <= 32 && medium.link is Unsupported ==> r == Err::<
            Vec<HostResult>,
            ScanError,
        >(ScanError::UnsupportedChannel),
        interface.prefix_len <= 32 ==> (medium.link matches Link::Failed(cause) ==> (r matches Err(
            ScanError::ChannelOpen { detail, needs_privilege },
        ) && detail@ == cause@ && needs_privilege == mentions_privilege(cause@))),
        r matches Ok(results) ==> {
            &&& results@.len() == hosts_on(*interface, *medium).len()
            &&& forall|i: int|
                0 <= i < results@.len() ==> result_on(
                    *interface,
                    *config,
                    *medium,
                    vendors,
                    hosts_on(*interface, *medium)[i],
                    #[trigger] results@[i],
                )
        },
{
    let (subnet, targets) = match calculate_subnet_ips(interface) {
        Ok(enumerated) => enumerated,
        Err(e) => {
            return Err(e);
        },
    };
    let events = match &medium.link {
        Link::Open(events) => events,
        Link::Unsupported => {
            return Err(ScanError::UnsupportedChannel);
        },
        Link::Failed(cause) => {
            return Err(ScanError::channel_open(cause.as_str()));
        },
    };
    let found = active_arp_scan(interface, targets.as_slice(), &subnet, config.arp_rounds, events);
    let mut report = ScanReport::new(targets.as_slice(), &found);
    let hosts = report.hosts();
    let latencies = match &medium.echoes {
        Some(script) => icmp_scan(hosts.as_slice(), config.ping_retries, Some(script)),
        None => icmp_scan(hosts.as_slice(), config.ping_retries, None),
    };
    let ghost at_start = report;
    report.record_latencies(&latencies);
    let ghost with_latencies = report;
    let open = tcp_probe_scan(hosts.as_slice(), &config.tcp_ports, &medium.listeners);
    report.record_ports(&open);
    let results = report.results(vendors);
    proof {
        assert forall|i: int| 0 <= i < results@.len() implies result_on(
            *interface,
            *config,
            *medium,
            vendors,
            hosts_on(*interface, *medium)[i],
            #[trigger] results@[i],
        ) by {
            let ip = hosts@[i];
            let result = results@[i];
            assert(hosts@.contains(ip));
            assert(report.describes(vendors, ip, result));
            assert(report.discovered().contains_key(ip));
            assert(result.mac == found_on(*interface, *medium)[ip]);
            assert(!at_start.latency().contains_key(ip));
            assert(with_latencies.latency_of(ip) == latency_on(*config, *medium, ip));
            assert(report.latency_of(ip) == with_latencies.latency_of(ip));
            assert(open@.contains_key(ip));
            assert(!with_latencies.ports().contains_key(ip));
            assert(report.open_ports_of(ip) == open@[ip]@);
        }
    }
    Ok(results)
}

/// With no responder a scan finds no host: where none of the frames that the
/// link delivers is an acceptable reply, the scan has no host to report.
pub proof fn lemma_silent_medium(interface: InterfaceInfo, medium: Medium)
    requires
        forall|i: int|
            0 <= i < received(delivered(medium.link)).len() ==> !is_acceptable_reply(
                subnet_of(interface.ip, interface.prefix_len),
                #[trigger] received(delivered(medium.link))[i],
            ),
    ensures
        found_on(interface, medium) == Map::<u32, MacAddr>::empty(),
        hosts_on(interface, medium) == Seq::<u32>::empty(),
{
    let subnet = subnet_of(interface.ip, interface.prefix_len);
    lemma_no_responders(Map::empty(), subnet, received(delivered(medium.link)));
    lemma_nothing_found(subnet.hosts());
}

/// Every host of a scan was resolved by discovery and is a host address of
/// the interface's subnet, and every address that discovery resolved is a host
/// of the scan: the later phases see the discovered hosts and no others. The
/// hosts come once each, in ascending order.
pub proof fn lemma_hosts_are_discovered(interface: InterfaceInfo, medium: Medium)
    requires
        interface.prefix_len <= 32,
    ensures
        forall|ip: u32| #[trigger]
            hosts_on(interface, medium).contains(ip) <==> found_on(interface, medium).contains_key(
                ip,
            ),
        forall|ip: u32| #[trigger]
            hosts_on(interface, medium).contains(ip) ==> acceptable(
                subnet_of(interface.ip, interface.prefix_len),
                ip,
            ),
        hosts_on(interface, medium).no_duplicates(),
        forall|i: int, j: int|
            0 <= i < j < hosts_on(interface, medium).len() ==> hosts_on(interface, medium)[i]
                < hosts_on(interface, medium)[j],
{
    let subnet = subnet_of(interface.ip, interface.prefix_len);
    let found = found_on(interface, medium);
    lemma_subnet_of(interface.ip, interface.prefix_len);
    lemma_only_hosts_enter(Map::empty(), subnet, received(delivered(medium.link)));
    lemma_report_covers_table(subnet, found);
    lemma_resolved_hosts(subnet.hosts(), found);
    lemma_hosts_exact(subnet);
    lemma_resolved_hosts_ascend(subnet.hosts(), found);
}

} // verus!
