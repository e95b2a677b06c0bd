//! A bound on how many hosts are probed at the same time.
//!
//! A `ProbeGate` holds the hosts in the order in which they are to be probed.
//! A probe starts when its host is handed out and ends, however it ends, when
//! `complete` is called. No host is handed out while as many probes are under
//! way as the limit allows.

use vstd::prelude::*;

verus! {

/// The hosts of a probing phase, the limit on probes under way, how many
/// probes were started and how many of those have not ended.
#[derive(Debug)]
pub struct ProbeGate {
    hosts: Vec<u32>,
    limit: usize,
    started: usize,
    in_flight: usize,
}

impl ProbeGate {
    /// The hosts, in the order in which they are handed out.
    pub closed spec fn spec_hosts(&self) -> Seq<u32> {
        self.hosts@
    }

    /// The most probes that may be under way.
    pub closed spec fn spec_limit(&self) -> nat {
        self.limit as nat
    }

    /// How many probes were started.
    pub closed spec fn spec_started(&self) -> nat {
        self.started as nat
    }

    /// How many probes are under way.
    pub closed spec fn spec_in_flight(&self) -> nat {
        self.in_flight as nat
    }

    /// The probes under way are within the limit and among those started, and
    /// no more probes were started than there are hosts. A new gate is so, and
    /// no operation on a gate ends this.
    pub open spec fn wf(&self) -> bool {
        &&& self.spec_in_flight() <= self.spec_limit()
        &&& self.spec_in_flight() <= self.spec_started()
        &&& self.spec_started() <= self.spec_hosts().len()
    }

    /// The hosts handed out so far, in order.
    pub open spec fn handed_out(&self) -> Seq<u32> {
        self.spec_hosts().take(self.spec_started() as int)
    }

    /// A gate over `hosts` that lets `limit` probes run at the same time.
    pub fn new(hosts: Vec<u32>, limit: usize) -> (gate: ProbeGate)
        ensures
            gate.wf(),
            gate.spec_hosts() == hosts@,
            gate.spec_limit() == limit,
            gate.spec_started() == 0,
            gate.spec_in_flight() == 0,
    {
        ProbeGate { hosts, limit, started: 0, in_flight: 0 }
    }

    /// Starts the next probe if a slot is free and a host is left: hands out
    /// the first host not handed out yet and counts its probe as under way.
    /// Otherwise nothing changes.
    pub fn launch(&mut self) -> (host: Option<u32>)
        ensures
            old(self).wf() ==> final(self).wf(),
            final(self).spec_hosts() == old(self).spec_hosts(),
            final(self).spec_limit() == old(self).spec_limit(),
            host is Some <==> old(self).spec_in_flight() < old(self).spec_limit() && old(
                self,
            ).spec_started() < old(self).spec_hosts().len(),
            host matches Some(ip) ==> {
                &&& ip == old(self).spec_hosts()[old(self).spec_started() as int]
                &&& final(self).spec_started() == old(self).spec_started() + 1
                &&& final(self).spec_in_flight() == old(self).spec_in_flight() + 1
                &&& final(self).handed_out() == old(self).handed_out().push(ip)
            },
            host is None ==> {
                &&& final(self).spec_started() == old(self).spec_started()
                &&& final(self).spec_in_flight() == old(self).spec_in_flight()
            },
    {
        if self.in_flight < self.limit && self.started < self.hosts.len() {
            let ip = self.hosts[self.started];
            self.started = self.started + 1;
            self.in_flight = self.in_flight + 1;
            assert(self.handed_out() =~= old(self).handed_out().push(ip));
            Some(ip)
        } else {
            None
        }
    }

    /// Ends one probe, on whatever path it ended, and frees its slot.
    /// Returns whether a probe was under way.
    pub fn complete(&mut self) -> (freed: bool)
        ensures
            old(self).wf() ==> final(self).wf(),
            final(self).spec_hosts() == old(self).spec_hosts(),
            final(self).spec_limit() == old(self).spec_limit(),
            final(self).spec_started() == old(self).spec_started(),
            freed == (old(self).spec_in_flight() > 0),
            final(self).spec_in_flight() == (if freed {
                old(self).spec_in_flight() - 1
            } else {
                0
            }),
    {
        if self.in_flight > 0 {
            self.in_flight = self.in_flight - 1;
            true
        } else {
            false
        }
    }

    /// How many probes are under way.
    pub fn in_flight(&self) -> (n: usize)
        ensures
            n == self.spec_in_flight(),
    {
        self.in_flight
    }

    /// How many hosts are still to be handed out.
    pub fn pending(&self) -> (n: usize)
        ensures
            self.wf() ==> n == self.spec_hosts().len() - self.spec_started(),
    {
        if self.started <= self.hosts.len() {
            self.hosts.len() - self.started
        } else {
            0
        }
    }

    /// Whether the phase is over: every host was handed out and no probe is
    /// under way.
    pub fn is_drained(&self) -> (done: bool)
        ensures
            done == (self.spec_started() >= self.spec_hosts().len() && self.spec_in_flight() == 0),
    {
        self.started >= self.hosts.len() && self.in_flight == 0
    }
}

} // verus!
