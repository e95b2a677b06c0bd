//! Port probing: the connection attempts made on one host.
//!
//! The connections themselves are attempted elsewhere. A probe is told how
//! each attempt ended. A port counts as open only if its attempt connected
//! within its time; no attempt is repeated.

use std::collections::HashMap;
use vstd::prelude::*;
use crate::lemmas::lemma_take_contains_next;

verus! {

/// Where a port probe stands: how many ports were tried, and the open ones
/// among them, in the order tried.
pub struct PortProgress {
    pub tried: nat,
    pub open: Seq<u16>,
}

/// A port probe before its first attempt.
pub open spec fn port_start() -> PortProgress {
    PortProgress { tried: 0, open: Seq::empty() }
}

/// A port probe after one more attempt has ended. Once every port was tried
/// no more attempts are taken in.
pub open spec fn port_step(ports: Seq<u16>, progress: PortProgress, connected: bool) -> PortProgress {
    if progress.tried >= ports.len() {
        progress
    } else {
        PortProgress {
            tried: progress.tried + 1,
            open: if connected {
                progress.open.push(ports[progress.tried as int])
            } else {
                progress.open
            },
        }
    }
}

/// A port probe after a run of attempts, taken in order.
pub open spec fn port_run(ports: Seq<u16>, progress: PortProgress, outcomes: Seq<bool>) -> PortProgress
    decreases outcomes.len(),
{
    if outcomes.len() == 0 {
        progress
    } else {
        port_step(ports, port_run(ports, progress, outcomes.drop_last()), outcomes.last())
    }
}

/// The port probe of one host: one connection attempt on each port of a
/// list, in order.
#[derive(Debug)]
pub struct PortProbe {
    ip: u32,
    ports: Vec<u16>,
    tried: usize,
    open: Vec<u16>,
}

impl PortProbe {
    /// The host probed.
    pub closed spec fn spec_ip(&self) -> u32 {
        self.ip
    }

    /// The ports to try, in order.
    pub closed spec fn spec_ports(&self) -> Seq<u16> {
        self.ports@
    }

    /// Where the probe stands.
    pub closed spec fn progress(&self) -> PortProgress {
        PortProgress { tried: self.tried as nat, open: self.open@ }
    }

    /// A probe of `ip` on `ports`.
    pub fn new(ip: u32, ports: Vec<u16>) -> (probe: PortProbe)
        ensures
            probe.spec_ip() == ip,
            probe.spec_ports() == ports@,
            probe.progress() == port_start(),
    {
        PortProbe { ip, ports, tried: 0, open: Vec::new() }
    }

    /// The host probed.
    #[verifier::when_used_as_spec(spec_ip)]
    pub fn ip(&self) -> (ip: u32)
        ensures
            ip == self.spec_ip(),
    {
        self.ip
    }

    /// The port whose attempt is due; `None` once every port was tried.
    pub fn next_port(&self) -> (port: Option<u16>)
        ensures
            port == (if self.progress().tried < self.spec_ports().len() {
                Some(self.spec_ports()[self.progress().tried as int])
            } else {
                None
            }),
    {
        if self.tried < self.ports.len() {
            Some(self.ports[self.tried])
        } else {
            None
        }
    }

    /// Takes in how the attempt that was due has ended: `true` where the
    /// connection was made within its time, `false` where it was refused,
    /// timed out or failed.
    pub fn record_attempt(&mut self, connected: bool)
        ensures
            final(self).spec_ip() == old(self).spec_ip(),
            final(self).spec_ports() == old(self).spec_ports(),
            final(self).progress() == port_step(
                old(self).spec_ports(),
                old(self).progress(),
                connected,
            ),
    {
        if self.tried < self.ports.len() {
            if connected {
                self.open.push(self.ports[self.tried]);
            }
            self.tried = self.tried + 1;
        }
    }

    /// Takes in a run of attempts in order.
    pub fn record_attempts(&mut self, outcomes: &Vec<bool>)
        ensures
            final(self).spec_ip() == old(self).spec_ip(),
            final(self).spec_ports() == old(self).spec_ports(),
            final(self).progress() == port_run(
                old(self).spec_ports(),
                old(self).progress(),
                outcomes@,
            ),
    {
        let mut i: usize = 0;
        assert(outcomes@.take(0) =~= Seq::<bool>::empty());
        while i < outcomes.len()
            invariant
                0 <= i <= outcomes@.len(),
                self.spec_ip() == old(self).spec_ip(),
                self.spec_ports() == old(self).spec_ports(),
                self.progress() == port_run(
                    old(self).spec_ports(),
                    old(self).progress(),
                    outcomes@.take(i as int),
                ),
            decreases outcomes@.len() - i,
        {
            proof {
                assert(outcomes@.take(i + 1).drop_last() =~= outcomes@.take(i as int));
                assert(outcomes@.take(i + 1).last() == outcomes@[i as int]);
            }
            self.record_attempt(outcomes[i]);
            i += 1;
        }
        assert(outcomes@.take(outcomes@.len() as int) =~= outcomes@);
    }

    /// The ports found open so far, in the order tried.
    pub fn open_ports(&self) -> (open: Vec<u16>)
        ensures
            open@ == self.progress().open,
    {
        self.open.clone()
    }
}

/// A port is reported open exactly if one of the attempts taken in was on
/// that port and connected. No port is tried twice, and none beyond the
/// list.
pub proof fn lemma_open_iff_connected(ports: Seq<u16>, outcomes: Seq<bool>)
    ensures
        ({
            let end = port_run(ports, port_start(), outcomes);
            &&& end.tried == (if outcomes.len() <= ports.len() {
                outcomes.len()
            } else {
                ports.len()
            })
            &&& forall|port: u16|
                end.open.contains(port) <==> exists|i: int|
                    0 <= i < end.tried && #[trigger] ports[i] == port && outcomes[i]
        }),
    decreases outcomes.len(),
{
    let end = port_run(ports, port_start(), outcomes);
    if outcomes.len() > 0 {
        let earlier = port_run(ports, port_start(), outcomes.drop_last());
        lemma_open_iff_connected(ports, outcomes.drop_last());
        assert forall|port: u16| end.open.contains(port) implies exists|i: int|
            0 <= i < end.tried && #[trigger] ports[i] == port && outcomes[i] by {
            if earlier.open.contains(port) {
                let i = choose|i: int|
                    0 <= i < earlier.tried && #[trigger] ports[i] == port
                        && outcomes.drop_last()[i];
                assert(ports[i] == port && outcomes[i]);
            } else {
                let j = choose|j: int| 0 <= j < end.open.len() && end.open[j] == port;
                assert(j == earlier.open.len());
                assert(ports[earlier.tried as int] == port);
            }
        }
        assert forall|port: u16|
            (exists|i: int|
                0 <= i < end.tried && #[trigger] ports[i] == port
                    && outcomes[i]) implies end.open.contains(port) by {
            let i = choose|i: int| 0 <= i < end.tried && #[trigger] ports[i] == port && outcomes[i];
            if i < earlier.tried {
                assert(ports[i] == port && outcomes.drop_last()[i]);
                assert(earlier.open.contains(port));
                let j = choose|j: int| 0 <= j < earlier.open.len() && earlier.open[j] == port;
                assert(end.open[j] == port);
            } else {
                assert(end.open[end.open.len() - 1] == port);
            }
        }
    }
}

/// How the attempts on a host end under a script of the hosts' listeners: as
/// the script says, port by port; a host that the script does not name accepts
/// no connection.
pub open spec fn scripted_attempts(script: Map<u32, Vec<bool>>, ip: u32) -> Seq<bool> {
    if script.contains_key(ip) {
        script[ip]@
    } else {
        Seq::empty()
    }
}

/// The ports of a host found open under a script.
pub open spec fn scripted_open_ports(ports: Seq<u16>, script: Map<u32, Vec<bool>>, ip: u32) -> Seq<
    u16,
> {
    port_run(ports, port_start(), scripted_attempts(script, ip)).open
}

/// Port probing over a script of the hosts' listeners: each host has every
/// port tried once, in order, with the attempts ending as the script says.
/// Every host gets an entry, which holds its open ports and may be empty.
pub fn tcp_probe_scan(hosts: &[u32], ports: &Vec<u16>, script: &HashMap<u32, Vec<bool>>) -> (found:
    HashMap<u32, Vec<u16>>)
    ensures
        forall|ip: u32| #[trigger] found@.contains_key(ip) <==> hosts@.contains(ip),
        forall|ip: u32| #[trigger]
            found@.contains_key(ip) ==> found@[ip]@ == scripted_open_ports(ports@, script@, ip),
{
    let mut found: HashMap<u32, Vec<u16>> = HashMap::new();
    let mut i: usize = 0;
    while i < hosts.len()
        invariant
            0 <= i <= hosts@.len(),
            forall|ip: u32| #[trigger]
                found@.contains_key(ip) <==> hosts@.take(i as int).contains(ip),
            forall|ip: u32| #[trigger]
                found@.contains_key(ip) ==> found@[ip]@ == scripted_open_ports(
                    ports@,
                    script@,
                    ip,
                ),
        decreases hosts@.len() - i,
    {
        let ip = hosts[i];
        let mut probe = PortProbe::new(ip, ports.clone());
        match script.get(&ip) {
            Some(outcomes) => {
                probe.record_attempts(outcomes);
            },
            None => {},
        }
        let ghost before = found@;
        found.insert(ip, probe.open_ports());
        proof {
            assert forall|other: u32| #[trigger]
                found@.contains_key(other) <==> hosts@.take(i + 1).contains(other) by {
                lemma_take_contains_next(hosts@, i as int, other);
                assert(before.contains_key(other) <==> hosts@.take(i as int).contains(other));
            }
        }
        i += 1;
    }
    proof {
        assert(hosts@.take(hosts@.len() as int) =~= hosts@);
    }
    found
}

} // verus!
