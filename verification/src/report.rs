//! What a scan has found, phase by phase, and the host results made of it.
//!
//! Discovery decides which hosts there are. The later phases add to what is
//! known of those hosts and of no others: a latency or a set of open ports
//! is only ever recorded for a host that discovery found.

use std::collections::HashMap;
use vstd::prelude::*;
use crate::lemmas::{lemma_contains_last, lemma_take_contains_next};
use crate::models::{HostResult, MacAddr};
use crate::network::subnet::Subnet;
use crate::network::vendor::{text_view, VendorDb};
use crate::scanner::arp::acceptable;
use crate::scanner::icmp::PingProbe;
use crate::scanner::tcp::PortProbe;
use crate::text::{mac_text, spec_mac_text};

verus! {

/// The targets that discovery resolved, in the order of the targets, each
/// once.
pub open spec fn resolved_hosts(targets: Seq<u32>, found: Map<u32, MacAddr>) -> Seq<u32>
    decreases targets.len(),
{
    if targets.len() == 0 {
        Seq::empty()
    } else {
        let earlier = resolved_hosts(targets.drop_last(), found);
        let ip = targets.last();
        if found.contains_key(ip) && !earlier.contains(ip) {
            earlier.push(ip)
        } else {
            earlier
        }
    }
}

/// What a scan has found: the hosts in the order of the targets, their
/// hardware addresses, and the latencies and open ports recorded for them.
pub struct ScanReport {
    hosts: Vec<u32>,
    discovered: HashMap<u32, MacAddr>,
    latency: HashMap<u32, u64>,
    ports: HashMap<u32, Vec<u16>>,
}

impl ScanReport {
    /// The hosts, in the order of the targets.
    pub closed spec fn spec_hosts(&self) -> Seq<u32> {
        self.hosts@
    }

    /// The hardware address of each host.
    pub closed spec fn discovered(&self) -> Map<u32, MacAddr> {
        self.discovered@
    }

    /// The round-trip time, in nanoseconds, of each host that answered an
    /// echo request.
    pub closed spec fn latency(&self) -> Map<u32, u64> {
        self.latency@
    }

    /// The open ports of each host whose port probe was recorded.
    pub closed spec fn ports(&self) -> Map<u32, Seq<u16>> {
        Map::new(|ip: u32| self.ports@.contains_key(ip), |ip: u32| self.ports@[ip]@)
    }

    /// The hosts are the discovered addresses, each once, and only they have
    /// a latency or ports recorded. A new report is so, and no operation on a
    /// report ends this.
    pub open spec fn wf(&self) -> bool {
        &&& self.spec_hosts().no_duplicates()
        &&& forall|ip: u32|
            #![trigger self.spec_hosts().contains(ip)]
            #![trigger self.discovered().contains_key(ip)]
            self.spec_hosts().contains(ip) <==> self.discovered().contains_key(ip)
        &&& forall|ip: u32| #[trigger]
            self.latency().contains_key(ip) ==> self.discovered().contains_key(ip)
        &&& forall|ip: u32| #[trigger]
            self.ports().contains_key(ip) ==> self.discovered().contains_key(ip)
    }

    /// The latency of `ip` as a host result states it.
    pub open spec fn latency_of(&self, ip: u32) -> Option<u64> {
        if self.latency().contains_key(ip) {
            Some(self.latency()[ip])
        } else {
            None
        }
    }

    /// The open ports of `ip` as a host result states them.
    pub open spec fn open_ports_of(&self, ip: u32) -> Seq<u16> {
        if self.ports().contains_key(ip) {
            self.ports()[ip]
        } else {
            Seq::empty()
        }
    }

    /// Whether `result` is what the report and the vendor database tell of
    /// the host `ip`.
    pub open spec fn describes(&self, vendors: &VendorDb, ip: u32, result: HostResult) -> bool {
        &&& result.ip == ip
        &&& result.mac == self.discovered()[ip]
        &&& text_view(result.vendor) == vendors.vendor(spec_mac_text(result.mac))
        &&& result.latency_ns == self.latency_of(ip)
        &&& result.open_ports@ == self.open_ports_of(ip)
    }

    /// The report at the end of discovery: the targets that discovery
    /// resolved, with nothing known of them but their hardware addresses.
    pub fn new(targets: &[u32], found: &HashMap<u32, MacAddr>) -> (report: ScanReport)
        ensures
            report.wf(),
            report.spec_hosts() == resolved_hosts(targets@, found@),
            forall|ip: u32| #[trigger]
                report.discovered().contains_key(ip) <==> found@.contains_key(ip)
                    && targets@.contains(ip),
            forall|ip: u32| #[trigger]
                report.discovered().contains_key(ip) ==> report.discovered()[ip] == found@[ip],
            report.latency() == Map::<u32, u64>::empty(),
            report.ports() == Map::<u32, Seq<u16>>::empty(),
    {
        let mut hosts: Vec<u32> = Vec::new();
        let mut discovered: HashMap<u32, MacAddr> = HashMap::new();
        let mut i: usize = 0;
        while i < targets.len()
            invariant
                0 <= i <= targets@.len(),
                hosts@ == resolved_hosts(targets@.take(i as int), found@),
                hosts@.no_duplicates(),
                forall|ip: u32|
                    #![trigger hosts@.contains(ip)]
                    #![trigger discovered@.contains_key(ip)]
                    hosts@.contains(ip) <==> discovered@.contains_key(ip),
                forall|ip: u32| #[trigger]
                    discovered@.contains_key(ip) <==> found@.contains_key(ip) && targets@.take(
                        i as int,
                    ).contains(ip),
                forall|ip: u32| #[trigger]
                    discovered@.contains_key(ip) ==> discovered@[ip] == found@[ip],
            decreases targets@.len() - i,
        {
            let ip = targets[i];
            let ghost before = targets@.take(i as int);
            let ghost now = targets@.take(i + 1);
            let ghost old_hosts = hosts@;
            let ghost old_found = discovered@;
            proof {
                assert(now.drop_last() =~= before);
                assert(now.last() == ip);
            }
            if !discovered.contains_key(&ip) {
                match found.get(&ip) {
                    Some(mac) => {
                        hosts.push(ip);
                        discovered.insert(ip, *mac);
                    },
                    None => {},
                }
            }
            proof {
                assert(!old_hosts.contains(ip) <==> !old_found.contains_key(ip));
                assert forall|other: u32|
                    #![trigger hosts@.contains(other)]
                    #![trigger discovered@.contains_key(other)]
                    hosts@.contains(other) <==> discovered@.contains_key(other) by {
                    vstd::seq_lib::lemma_seq_contains_after_push(old_hosts, ip, other);
                    assert(old_hosts.contains(other) <==> old_found.contains_key(other));
                }
                assert forall|other: u32| #[trigger]
                    discovered@.contains_key(other) <==> found@.contains_key(other)
                        && now.contains(other) by {
                    lemma_contains_last(now, other);
                    assert(old_found.contains_key(other) <==> found@.contains_key(other)
                        && before.contains(other));
                }
            }
            i += 1;
        }
        proof {
            assert(targets@.take(targets@.len() as int) =~= targets@);
        }
        let report = ScanReport {
            hosts,
            discovered,
            latency: HashMap::new(),
            ports: HashMap::new(),
        };
        proof {
            assert(report.ports() =~= Map::<u32, Seq<u16>>::empty());
        }
        report
    }

    /// The hosts, in the order of the targets.
    pub fn hosts(&self) -> (hosts: Vec<u32>)
        ensures
            hosts@ == self.spec_hosts(),
    {
        self.hosts.clone()
    }

    /// How many hosts were discovered.
    pub fn host_count(&self) -> (n: usize)
        ensures
            n == self.spec_hosts().len(),
    {
        self.hosts.len()
    }

    /// The hardware address of `ip`, if discovery found it.
    pub fn mac_of(&self, ip: u32) -> (mac: Option<MacAddr>)
        ensures
            mac == (if self.discovered().contains_key(ip) {
                Some(self.discovered()[ip])
            } else {
                None
            }),
    {
        match self.discovered.get(&ip) {
            Some(mac) => Some(*mac),
            None => None,
        }
    }

    /// Records the round-trip time of a host. It is recorded where discovery
    /// found the host and no latency is recorded for it yet; otherwise
    /// nothing changes. Returns whether it was recorded.
    pub fn record_latency(&mut self, ip: u32, latency_ns: u64) -> (recorded: bool)
        ensures
            old(self).wf() ==> final(self).wf(),
            final(self).spec_hosts() == old(self).spec_hosts(),
            final(self).discovered() == old(self).discovered(),
            final(self).ports() == old(self).ports(),
            recorded == (old(self).discovered().contains_key(ip) && !old(
                self,
            ).latency().contains_key(ip)),
            final(self).latency() == (if recorded {
                old(self).latency().insert(ip, latency_ns)
            } else {
                old(self).latency()
            }),
    {
        if !self.discovered.contains_key(&ip) {
            return false;
        }
        if self.latency.contains_key(&ip) {
            return false;
        }
        self.latency.insert(ip, latency_ns);
        proof {
            if old(self).wf() {
                assert forall|other: u32| #[trigger]
                    self.latency().contains_key(other) implies self.discovered().contains_key(
                    other,
                ) by {
                    if other != ip {
                        assert(old(self).latency().contains_key(other));
                    }
                }
                assert forall|other: u32| #[trigger]
                    self.ports().contains_key(other) implies self.discovered().contains_key(
                    other,
                ) by {
                    assert(old(self).ports().contains_key(other));
                }
            }
        }
        true
    }

    /// Records what a latency probe ended with: its round-trip time where an
    /// attempt was answered, nothing where none was. Returns whether a
    /// latency was recorded.
    pub fn record_probe(&mut self, probe: &PingProbe) -> (recorded: bool)
        ensures
            old(self).wf() ==> final(self).wf(),
            final(self).spec_hosts() == old(self).spec_hosts(),
            final(self).discovered() == old(self).discovered(),
            final(self).ports() == old(self).ports(),
            recorded == (probe.progress().latency_ns is Some && old(
                self,
            ).discovered().contains_key(probe.spec_ip()) && !old(self).latency().contains_key(
                probe.spec_ip(),
            )),
            final(self).latency() == (if recorded {
                old(self).latency().insert(probe.spec_ip(), probe.progress().latency_ns->Some_0)
            } else {
                old(self).latency()
            }),
    {
        match probe.latency_ns() {
            Some(latency_ns) => self.record_latency(probe.ip(), latency_ns),
            None => false,
        }
    }

    /// Records the open ports of a host. They are recorded where discovery
    /// found the host and no ports are recorded for it yet; otherwise nothing
    /// changes. Returns whether they were recorded.
    pub fn record_open_ports(&mut self, ip: u32, open: Vec<u16>) -> (recorded: bool)
        ensures
            old(self).wf() ==> final(self).wf(),
            final(self).spec_hosts() == old(self).spec_hosts(),
            final(self).discovered() == old(self).discovered(),
            final(self).latency() == old(self).latency(),
            recorded == (old(self).discovered().contains_key(ip) && !old(
                self,
            ).ports().contains_key(ip)),
            final(self).ports() == (if recorded {
                old(self).ports().insert(ip, open@)
            } else {
                old(self).ports()
            }),
    {
        if !self.discovered.contains_key(&ip) {
            return false;
        }
        if self.ports.contains_key(&ip) {
            return false;
        }
        self.ports.insert(ip, open);
        proof {
            assert(self.ports() =~= old(self).ports().insert(ip, open@));
            if old(self).wf() {
                assert forall|other: u32| #[trigger]
                    self.ports().contains_key(other) implies self.discovered().contains_key(
                    other,
                ) by {
                    if other != ip {
                        assert(old(self).ports().contains_key(other));
                    }
                }
                assert forall|other: u32| #[trigger]
                    self.latency().contains_key(other) implies self.discovered().contains_key(
                    other,
                ) by {
                    assert(old(self).latency().contains_key(other));
                }
            }
        }
        true
    }

    /// Records what a port probe has found so far.
    pub fn record_port_probe(&mut self, probe: &PortProbe) -> (recorded: bool)
        ensures
            old(self).wf() ==> final(self).wf(),
            final(self).spec_hosts() == old(self).spec_hosts(),
            final(self).discovered() == old(self).discovered(),
            final(self).latency() == old(self).latency(),
            recorded == (old(self).discovered().contains_key(probe.spec_ip()) && !old(
                self,
            ).ports().contains_key(probe.spec_ip())),
            final(self).ports() == (if recorded {
                old(self).ports().insert(probe.spec_ip(), probe.progress().open)
            } else {
                old(self).ports()
            }),
    {
        self.record_open_ports(probe.ip(), probe.open_ports())
    }

    /// Records the latencies of a latency phase. Entries for addresses that
    /// discovery did not find are passed over, and a latency already recorded
    /// stays.
    pub fn record_latencies(&mut self, latencies: &HashMap<u32, u64>)
        ensures
            old(self).wf() ==> final(self).wf(),
            final(self).spec_hosts() == old(self).spec_hosts(),
            final(self).discovered() == old(self).discovered(),
            final(self).ports() == old(self).ports(),
            old(self).wf() ==> forall|ip: u32|
                #![trigger final(self).latency_of(ip)]
                final(self).latency_of(ip) == (if old(self).latency().contains_key(ip) {
                    old(self).latency_of(ip)
                } else if old(self).discovered().contains_key(ip) && latencies@.contains_key(ip) {
                    Some(latencies@[ip])
                } else {
                    None
                }),
    {
        let mut i: usize = 0;
        while i < self.hosts.len()
            invariant
                0 <= i <= self.spec_hosts().len(),
                old(self).wf() ==> self.wf(),
                self.hosts@ == old(self).spec_hosts(),
                self.spec_hosts() == old(self).spec_hosts(),
                self.discovered() == old(self).discovered(),
                self.ports() == old(self).ports(),
                old(self).wf() ==> forall|ip: u32|
                    #![trigger self.latency_of(ip)]
                    self.latency_of(ip) == (if old(self).latency().contains_key(ip) {
                        old(self).latency_of(ip)
                    } else if self.spec_hosts().take(i as int).contains(ip)
                        && latencies@.contains_key(ip) {
                        Some(latencies@[ip])
                    } else {
                        None
                    }),
            decreases self.spec_hosts().len() - i,
        {
            let ip = self.hosts[i];
            let ghost before = *self;
            match latencies.get(&ip) {
                Some(latency_ns) => {
                    self.record_latency(ip, *latency_ns);
                },
                None => {},
            }
            proof {
                if old(self).wf() {
                    assert(self.spec_hosts().contains(ip));
                    assert forall|other: u32|
                        #![trigger self.latency_of(other)]
                        self.latency_of(other) == (if old(self).latency().contains_key(other) {
                            old(self).latency_of(other)
                        } else if self.spec_hosts().take(i + 1).contains(other)
                            && latencies@.contains_key(other) {
                            Some(latencies@[other])
                        } else {
                            None
                        }) by {
                        lemma_take_contains_next(self.spec_hosts(), i as int, other);
                        assert(before.latency_of(other) == (if old(self).latency().contains_key(
                            other,
                        ) {
                            old(self).latency_of(other)
                        } else if self.spec_hosts().take(i as int).contains(other)
                            && latencies@.contains_key(other) {
                            Some(latencies@[other])
                        } else {
                            None
                        }));
                    }
                }
            }
            i += 1;
        }
        proof {
            assert(self.spec_hosts().take(self.spec_hosts().len() as int) =~= self.spec_hosts());
        }
    }

    /// Records the open ports of a port phase. Entries for addresses that
    /// discovery did not find are passed over, and ports already recorded
    /// stay.
    pub fn record_ports(&mut self, found: &HashMap<u32, Vec<u16>>)
        ensures
            old(self).wf() ==> final(self).wf(),
            final(self).spec_hosts() == old(self).spec_hosts(),
            final(self).discovered() == old(self).discovered(),
            final(self).latency() == old(self).latency(),
            old(self).wf() ==> forall|ip: u32|
                #![trigger final(self).open_ports_of(ip)]
                final(self).open_ports_of(ip) == (if old(self).ports().contains_key(ip) {
                    old(self).open_ports_of(ip)
                } else if old(self).discovered().contains_key(ip) && found@.contains_key(ip) {
                    found@[ip]@
                } else {
                    Seq::empty()
                }),
    {
        let mut i: usize = 0;
        while i < self.hosts.len()
            invariant
                0 <= i <= self.spec_hosts().len(),
                old(self).wf() ==> self.wf(),
                self.hosts@ == old(self).spec_hosts(),
                self.spec_hosts() == old(self).spec_hosts(),
                self.discovered() == old(self).discovered(),
                self.latency() == old(self).latency(),
                old(self).wf() ==> forall|ip: u32|
                    #![trigger self.open_ports_of(ip)]
                    self.open_ports_of(ip) == (if old(self).ports().contains_key(ip) {
                        old(self).open_ports_of(ip)
                    } else if self.spec_hosts().take(i as int).contains(ip) && found@.contains_key(
                        ip,
                    ) {
                        found@[ip]@
                    } else {
                        Seq::empty()
                    }),
                old(self).wf() ==> forall|ip: u32| #[trigger]
                    self.ports().contains_key(ip) ==> old(self).ports().contains_key(ip)
                        || self.spec_hosts().take(i as int).contains(ip),
                forall|ip: u32| #[trigger]
                    old(self).ports().contains_key(ip) ==> self.ports().contains_key(ip),
            decreases self.spec_hosts().len() - i,
        {
            let ip = self.hosts[i];
            let ghost before = *self;
            match found.get(&ip) {
                Some(open) => {
                    let copy = open.clone();
                    assert(copy@ =~= open@);
                    self.record_open_ports(ip, copy);
                },
                None => {},
            }
            proof {
                if old(self).wf() {
                    assert(self.spec_hosts().contains(ip));
                    assert(!self.spec_hosts().take(i as int).contains(ip)) by {
                        if self.spec_hosts().take(i as int).contains(ip) {
                            let j = choose|j: int|
                                0 <= j < i && self.spec_hosts().take(i as int)[j] == ip;
                            assert(self.spec_hosts()[j] == self.spec_hosts()[i as int]);
                        }
                    }
                    assert forall|other: u32|
                        #![trigger self.open_ports_of(other)]
                        self.open_ports_of(other) == (if old(self).ports().contains_key(other) {
                            old(self).open_ports_of(other)
                        } else if self.spec_hosts().take(i + 1).contains(other)
                            && found@.contains_key(other) {
                            found@[other]@
                        } else {
                            Seq::empty()
                        }) by {
                        lemma_take_contains_next(self.spec_hosts(), i as int, other);
                        assert(before.open_ports_of(other) == (if old(self).ports().contains_key(
                            other,
                        ) {
                            old(self).open_ports_of(other)
                        } else if self.spec_hosts().take(i as int).contains(other)
                            && found@.contains_key(other) {
                            found@[other]@
                        } else {
                            Seq::empty()
                        }));
                        if old(self).ports().contains_key(other) {
                            assert(before.ports().contains_key(other));
                        }
                    }
                    assert forall|other: u32| #[trigger]
                        self.ports().contains_key(other) implies old(self).ports().contains_key(
                        other,
                    ) || self.spec_hosts().take(i + 1).contains(other) by {
                        lemma_take_contains_next(self.spec_hosts(), i as int, other);
                        if other != ip {
                            assert(before.ports().contains_key(other));
                        }
                    }
                }
            }
            i += 1;
        }
        proof {
            assert(self.spec_hosts().take(self.spec_hosts().len() as int) =~= self.spec_hosts());
        }
    }

    /// The result for one host: what the report holds of it, and the vendor
    /// of its hardware address. `None` where discovery did not find `ip`.
    pub fn result_for(&self, vendors: &VendorDb, ip: u32) -> (result: Option<HostResult>)
        ensures
            result is Some <==> self.discovered().contains_key(ip),
            result matches Some(host) ==> self.describes(vendors, ip, host),
    {
        let mac = match self.discovered.get(&ip) {
            Some(mac) => *mac,
            None => {
                return None;
            },
        };
        let text = mac_text(mac);
        let vendor = vendors.lookup(text.as_str());
        let latency_ns = match self.latency.get(&ip) {
            Some(latency_ns) => Some(*latency_ns),
            None => None,
        };
        let open_ports = match self.ports.get(&ip) {
            Some(open) => open.clone(),
            None => Vec::new(),
        };
        Some(HostResult { ip, mac, vendor, latency_ns, open_ports })
    }

    /// The host results: one for each discovered host, in the order of the
    /// targets.
    pub fn results(&self, vendors: &VendorDb) -> (results: Vec<HostResult>)
        ensures
            self.wf() ==> results@.len() == self.spec_hosts().len(),
            self.wf() ==> forall|i: int|
                0 <= i < results@.len() ==> self.describes(
                    vendors,
                    self.spec_hosts()[i],
                    #[trigger] results@[i],
                ),
    {
        let mut results: Vec<HostResult> = Vec::new();
        let mut i: usize = 0;
        while i < self.hosts.len()
            invariant
                0 <= i <= self.spec_hosts().len(),
                self.spec_hosts() == self.hosts@,
                self.wf() ==> results@.len() == i,
                self.wf() ==> forall|k: int|
                    0 <= k < results@.len() ==> self.describes(
                        vendors,
                        self.spec_hosts()[k],
                        #[trigger] results@[k],
                    ),
            decreases self.spec_hosts().len() - i,
        {
            let ip = self.hosts[i];
            proof {
                if self.wf() {
                    assert(self.spec_hosts().contains(ip));
                }
            }
            match self.result_for(vendors, ip) {
                Some(host) => {
                    results.push(host);
                },
                None => {},
            }
            i += 1;
        }
        results
    }
}

/// Where discovery found nothing, the report holds no host.
pub proof fn lemma_nothing_found(targets: Seq<u32>)
    ensures
        resolved_hosts(targets, Map::<u32, MacAddr>::empty()) == Seq::<u32>::empty(),
    decreases targets.len(),
{
    if targets.len() > 0 {
        lemma_nothing_found(targets.drop_last());
    }
}

/// The hosts of a report are the resolved targets, each once.
pub proof fn lemma_resolved_hosts(targets: Seq<u32>, found: Map<u32, MacAddr>)
    ensures
        resolved_hosts(targets, found).no_duplicates(),
        forall|ip: u32| #[trigger]
            resolved_hosts(targets, found).contains(ip) <==> targets.contains(ip)
                && found.contains_key(ip),
        resolved_hosts(targets, found).len() <= targets.len(),
    decreases targets.len(),
{
    let hosts = resolved_hosts(targets, found);
    if targets.len() > 0 {
        let earlier = resolved_hosts(targets.drop_last(), found);
        let last = targets.last();
        lemma_resolved_hosts(targets.drop_last(), found);
        assert forall|ip: u32| #[trigger]
            hosts.contains(ip) <==> targets.contains(ip) && found.contains_key(ip) by {
            lemma_contains_last(targets, ip);
            vstd::seq_lib::lemma_seq_contains_after_push(earlier, last, ip);
            assert(earlier.contains(ip) <==> targets.drop_last().contains(ip)
                && found.contains_key(ip));
        }
    }
}

/// Where the targets ascend, so do the hosts of a report.
pub proof fn lemma_resolved_hosts_ascend(targets: Seq<u32>, found: Map<u32, MacAddr>)
    requires
        forall|i: int, j: int| 0 <= i < j < targets.len() ==> targets[i] < targets[j],
    ensures
        forall|i: int, j: int|
            0 <= i < j < resolved_hosts(targets, found).len() ==> resolved_hosts(targets, found)[i]
                < resolved_hosts(targets, found)[j],
    decreases targets.len(),
{
    let hosts = resolved_hosts(targets, found);
    if targets.len() > 0 {
        let earlier = resolved_hosts(targets.drop_last(), found);
        let last = targets.last();
        lemma_resolved_hosts_ascend(targets.drop_last(), found);
        lemma_resolved_hosts(targets.drop_last(), found);
        assert forall|i: int, j: int| 0 <= i < j < hosts.len() implies hosts[i] < hosts[j] by {
            if j == earlier.len() {
                assert(earlier.contains(earlier[i]));
                let k = choose|k: int|
                    0 <= k < targets.drop_last().len() && targets.drop_last()[k] == earlier[i];
                assert(targets[k] < targets[targets.len() - 1]);
            }
        }
    }
}

/// On the host list of its subnet a table loses nothing: every address that
/// discovery resolved is a host of the report.
pub proof fn lemma_report_covers_table(subnet: Subnet, found: Map<u32, MacAddr>)
    requires
        subnet.wf(),
        forall|ip: u32| #[trigger] found.contains_key(ip) ==> acceptable(subnet, ip),
    ensures
        forall|ip: u32| #[trigger]
            resolved_hosts(subnet.hosts(), found).contains(ip) <==> found.contains_key(ip),
{
    crate::network::subnet::lemma_hosts_exact(subnet);
    lemma_resolved_hosts(subnet.hosts(), found);
    assert forall|ip: u32| #[trigger]
        resolved_hosts(subnet.hosts(), found).contains(ip) <==> found.contains_key(ip) by {
        if found.contains_key(ip) {
            assert(acceptable(subnet, ip));
            assert(subnet.hosts().contains(ip));
        }
    }
}

} // verus!
