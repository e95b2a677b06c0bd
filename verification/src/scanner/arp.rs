//! Link-layer discovery: the table of resolved addresses and the engine that
//! fills it.
//!
//! The engine does no input or output. The caller hands it every frame that
//! arrives and asks it, round by round, which requests to send. One engine
//! behind one lock serves a receiving and a sending thread alike: each call is
//! a single step on the table.

use std::collections::HashMap;
use vstd::prelude::*;
use vstd::slice::slice_to_vec;
use crate::models::{InterfaceInfo, MacAddr};
use crate::network::subnet::Subnet;
use crate::scanner::frame::{
    arp_request_frame,
    create_arp_request,
    parse_arp_reply,
    spec_parse_arp_reply,
    ArpReply,
};

verus! {

/// Whether a reply from `ip` counts on `subnet`: the address lies in the
/// subnet and is neither its network nor its broadcast address.
pub open spec fn acceptable(subnet: Subnet, ip: u32) -> bool {
    subnet.contains_addr(ip) && !subnet.is_special(ip)
}

/// The table after a reply: the first acceptable reply for an address enters
/// it, every other reply leaves the table as it was.
pub open spec fn record(found: Map<u32, MacAddr>, subnet: Subnet, reply: ArpReply) -> Map<
    u32,
    MacAddr,
> {
    if acceptable(subnet, reply.sender_ip) && !found.contains_key(reply.sender_ip) {
        found.insert(reply.sender_ip, reply.sender_mac)
    } else {
        found
    }
}

/// The table after a received frame: frames that are no replies change
/// nothing.
pub open spec fn observe(found: Map<u32, MacAddr>, subnet: Subnet, frame: Seq<u8>) -> Map<
    u32,
    MacAddr,
> {
    match spec_parse_arp_reply(frame) {
        Some(reply) => record(found, subnet, reply),
        None => found,
    }
}

/// The table after a run of received frames, taken in order.
pub open spec fn observe_all(found: Map<u32, MacAddr>, subnet: Subnet, frames: Seq<Seq<u8>>) -> Map<
    u32,
    MacAddr,
>
    decreases frames.len(),
{
    if frames.len() == 0 {
        found
    } else {
        observe(observe_all(found, subnet, frames.drop_last()), subnet, frames.last())
    }
}

/// The targets that the table does not hold yet, in the order given.
pub open spec fn unresolved(targets: Seq<u32>, found: Map<u32, MacAddr>) -> Seq<u32> {
    targets.filter(|ip: u32| !found.contains_key(ip))
}

/// The frames of a list of byte buffers.
pub open spec fn frames_view(frames: Seq<Vec<u8>>) -> Seq<Seq<u8>> {
    Seq::new(frames.len(), |i: int| frames[i]@)
}

/// The requests of one round: one for each target, in order.
pub open spec fn requests_for(interface: InterfaceInfo, targets: Seq<u32>) -> Seq<Seq<u8>> {
    Seq::new(
        targets.len(),
        |i: int| arp_request_frame(interface.mac, interface.ip, targets[i]),
    )
}

/// The addresses resolved so far on one subnet, each with the hardware
/// address of the first acceptable reply that named it.
pub struct DiscoveryTable {
    subnet: Subnet,
    found: HashMap<u32, MacAddr>,
}

impl View for DiscoveryTable {
    type V = Map<u32, MacAddr>;

    closed spec fn view(&self) -> Map<u32, MacAddr> {
        self.found@
    }
}

impl DiscoveryTable {
    /// The subnet that the table belongs to.
    pub closed spec fn spec_subnet(&self) -> Subnet {
        self.subnet
    }

    /// Every address in the table is a host address of the subnet. The empty
    /// table is so, and no operation on a table ends this.
    pub open spec fn wf(&self) -> bool {
        &&& self.spec_subnet().wf()
        &&& forall|ip: u32| #[trigger] self@.contains_key(ip) ==> acceptable(self.spec_subnet(), ip)
    }

    /// The empty table of a subnet.
    pub fn new(subnet: Subnet) -> (table: DiscoveryTable)
        ensures
            table.wf(),
            table@ == Map::<u32, MacAddr>::empty(),
            table.spec_subnet() == subnet,
    {
        proof {
            use_type_invariant(&subnet);
        }
        DiscoveryTable { subnet, found: HashMap::new() }
    }

    /// The subnet that the table belongs to.
    #[verifier::when_used_as_spec(spec_subnet)]
    pub fn subnet(&self) -> (subnet: Subnet)
        ensures
            subnet == self.spec_subnet(),
    {
        self.subnet
    }

    /// Whether `ip` is resolved.
    pub fn contains(&self, ip: u32) -> (r: bool)
        ensures
            r == self@.contains_key(ip),
    {
        self.found.contains_key(&ip)
    }

    /// The hardware address that `ip` resolved to.
    pub fn get(&self, ip: u32) -> (mac: Option<MacAddr>)
        ensures
            mac == (if self@.contains_key(ip) {
                Some(self@[ip])
            } else {
                None
            }),
    {
        match self.found.get(&ip) {
            Some(mac) => Some(*mac),
            None => None,
        }
    }

    /// How many addresses are resolved.
    pub fn len(&self) -> (n: usize)
        ensures
            n == self@.len(),
    {
        self.found.len()
    }

    /// Whether nothing is resolved.
    pub fn is_empty(&self) -> (r: bool)
        ensures
            r == (self@.len() == 0),
            r == (self@ == Map::<u32, MacAddr>::empty()),
    {
        proof {
            if self@.len() == 0 {
                assert(self@.dom().finite());
                assert(self@ =~= Map::<u32, MacAddr>::empty());
            }
        }
        self.found.len() == 0
    }

    /// Takes in one reply. The first acceptable reply for an address is
    /// recorded; a reply from outside the subnet, from its network or
    /// broadcast address, or for an address already resolved changes nothing.
    /// Returns whether the reply was recorded.
    pub fn record_reply(&mut self, reply: ArpReply) -> (added: bool)
        ensures
            old(self).wf() ==> final(self).wf(),
            final(self).spec_subnet() == old(self).spec_subnet(),
            final(self)@ == record(old(self)@, old(self).spec_subnet(), reply),
            added == (acceptable(old(self).spec_subnet(), reply.sender_ip) && !old(
                self,
            )@.contains_key(reply.sender_ip)),
    {
        proof {
            use_type_invariant(&self.subnet);
        }
        if !self.subnet.contains(reply.sender_ip) {
            return false;
        }
        if crate::network::subnet::is_special_address(reply.sender_ip, &self.subnet) {
            return false;
        }
        if self.found.contains_key(&reply.sender_ip) {
            return false;
        }
        self.found.insert(reply.sender_ip, reply.sender_mac);
        proof {
            if old(self).wf() {
                assert forall|ip: u32| #[trigger] self@.contains_key(ip) implies acceptable(
                    self.spec_subnet(),
                    ip,
                ) by {
                    if ip != reply.sender_ip {
                        assert(old(self)@.contains_key(ip));
                    }
                }
            }
        }
        true
    }

    /// Takes in one received frame, whatever it holds. Returns whether it
    /// added an address.
    pub fn handle_frame(&mut self, frame: &[u8]) -> (added: bool)
        ensures
            old(self).wf() ==> final(self).wf(),
            final(self).spec_subnet() == old(self).spec_subnet(),
            final(self)@ == observe(old(self)@, old(self).spec_subnet(), frame@),
            added == (final(self)@ != old(self)@),
    {
        match parse_arp_reply(frame) {
            Some(reply) => {
                let added = self.record_reply(reply);
                proof {
                    if added {
                        assert(self@.contains_key(reply.sender_ip));
                    }
                }
                added
            },
            None => false,
        }
    }

    /// The targets not resolved yet, in the order given.
    pub fn remaining(&self, targets: &[u32]) -> (rest: Vec<u32>)
        ensures
            rest@ == unresolved(targets@, self@),
    {
        let ghost absent = |ip: u32| !self@.contains_key(ip);
        let mut rest: Vec<u32> = Vec::new();
        let mut i: usize = 0;
        proof {
            reveal(Seq::filter);
            assert(targets@.take(0) =~= Seq::<u32>::empty());
        }
        while i < targets.len()
            invariant
                0 <= i <= targets@.len(),
                absent == (|ip: u32| !self@.contains_key(ip)),
                rest@ == targets@.take(i as int).filter(absent),
            decreases targets@.len() - i,
        {
            let ip = targets[i];
            proof {
                reveal(Seq::filter);
                assert(targets@.take(i + 1).drop_last() =~= targets@.take(i as int));
                assert(targets@.take(i + 1).last() == ip);
            }
            if !self.found.contains_key(&ip) {
                rest.push(ip);
            }
            i += 1;
        }
        proof {
            assert(targets@.take(targets@.len() as int) =~= targets@);
        }
        rest
    }

    /// The table's content as a map of its own.
    pub fn into_map(self) -> (found: HashMap<u32, MacAddr>)
        ensures
            found@ == self@,
    {
        self.found
    }
}

/// What reaches the engine, in the order in which it happens: a round falls
/// due, or a frame arrives.
#[derive(Debug)]
pub enum LinkEvent {
    RoundDue,
    Frame(Vec<u8>),
}

/// What is fixed for the length of a scan.
pub struct ScanSetup {
    pub interface: InterfaceInfo,
    pub subnet: Subnet,
    pub targets: Seq<u32>,
    pub rounds: nat,
}

/// What a scan has come to: the table, the rounds sent, and every request
/// sent so far, in order.
pub struct ScanProgress {
    pub found: Map<u32, MacAddr>,
    pub rounds_sent: nat,
    pub sent: Seq<Seq<u8>>,
}

/// A scan before its first event.
pub open spec fn scan_start() -> ScanProgress {
    ScanProgress { found: Map::empty(), rounds_sent: 0, sent: Seq::empty() }
}

/// One event on a scan. A frame goes to the table. A round that falls due
/// sends one request to each target that the table does not hold at that
/// moment; once all rounds are sent, a round that falls due sends nothing.
pub open spec fn scan_step(setup: ScanSetup, progress: ScanProgress, event: LinkEvent) -> ScanProgress {
    match event {
        LinkEvent::Frame(frame) => ScanProgress {
            found: observe(progress.found, setup.subnet, frame@),
            ..progress
        },
        LinkEvent::RoundDue => if progress.rounds_sent < setup.rounds {
            ScanProgress {
                found: progress.found,
                rounds_sent: progress.rounds_sent + 1,
                sent: progress.sent + requests_for(
                    setup.interface,
                    unresolved(setup.targets, progress.found),
                ),
            }
        } else {
            progress
        },
    }
}

/// A run of events on a scan, taken in order.
pub open spec fn scan_run(setup: ScanSetup, progress: ScanProgress, events: Seq<LinkEvent>) -> ScanProgress
    decreases events.len(),
{
    if events.len() == 0 {
        progress
    } else {
        scan_step(setup, scan_run(setup, progress, events.drop_last()), events.last())
    }
}

/// The frames among a run of events, in order.
pub open spec fn received(events: Seq<LinkEvent>) -> Seq<Seq<u8>>
    decreases events.len(),
{
    if events.len() == 0 {
        Seq::empty()
    } else {
        match events.last() {
            LinkEvent::Frame(frame) => received(events.drop_last()).push(frame@),
            LinkEvent::RoundDue => received(events.drop_last()),
        }
    }
}

/// Link-layer discovery on one subnet: the table, the targets, and the count
/// of the rounds sent.
pub struct ArpScan {
    interface: InterfaceInfo,
    targets: Vec<u32>,
    table: DiscoveryTable,
    rounds: u32,
    rounds_sent: u32,
    sent: Ghost<Seq<Seq<u8>>>,
}

impl ArpScan {
    /// What is fixed for the length of the scan.
    pub closed spec fn setup(&self) -> ScanSetup {
        ScanSetup {
            interface: self.interface,
            subnet: self.table.spec_subnet(),
            targets: self.targets@,
            rounds: self.rounds as nat,
        }
    }

    /// What the scan has come to.
    pub closed spec fn progress(&self) -> ScanProgress {
        ScanProgress { found: self.table@, rounds_sent: self.rounds_sent as nat, sent: self.sent@ }
    }

    /// No more rounds are sent than were asked for, and the table holds host
    /// addresses only. A new scan is so, and no operation on a scan ends this.
    pub closed spec fn wf(&self) -> bool {
        &&& self.rounds_sent <= self.rounds
        &&& self.table.wf()
    }

    /// A scan of `targets` on `subnet` in `rounds` rounds, asked from
    /// `interface`.
    pub fn new(interface: InterfaceInfo, subnet: Subnet, targets: Vec<u32>, rounds: u32) -> (scan:
        ArpScan)
        ensures
            scan.wf(),
            scan.setup() == (ScanSetup {
                interface,
                subnet,
                targets: targets@,
                rounds: rounds as nat,
            }),
            scan.progress() == scan_start(),
    {
        ArpScan {
            interface,
            targets,
            table: DiscoveryTable::new(subnet),
            rounds,
            rounds_sent: 0,
            sent: Ghost(Seq::empty()),
        }
    }

    /// Takes in one received frame. Returns whether it added an address.
    pub fn handle_frame(&mut self, frame: &[u8]) -> (added: bool)
        ensures
            old(self).wf() ==> final(self).wf(),
            final(self).setup() == old(self).setup(),
            final(self).progress() == (ScanProgress {
                found: observe(old(self).progress().found, old(self).setup().subnet, frame@),
                ..old(self).progress()
            }),
            added == (final(self).progress().found != old(self).progress().found),
    {
        self.table.handle_frame(frame)
    }

    /// The requests of the next round: one for each target not resolved at
    /// this moment, in the order of the targets. `None` once every round has
    /// been handed out.
    pub fn next_round(&mut self) -> (requests: Option<Vec<Vec<u8>>>)
        ensures
            old(self).wf() ==> final(self).wf(),
            final(self).setup() == old(self).setup(),
            final(self).progress() == scan_step(
                old(self).setup(),
                old(self).progress(),
                LinkEvent::RoundDue,
            ),
            requests is Some <==> old(self).progress().rounds_sent < old(self).setup().rounds,
            requests matches Some(frames) ==> frames_view(frames@) == requests_for(
                old(self).setup().interface,
                unresolved(old(self).setup().targets, old(self).progress().found),
            ),
    {
        if self.rounds_sent >= self.rounds {
            return None;
        }
        let rest = self.table.remaining(self.targets.as_slice());
        let mut frames: Vec<Vec<u8>> = Vec::new();
        let mut i: usize = 0;
        while i < rest.len()
            invariant
                0 <= i <= rest@.len(),
                frames@.len() == i,
                forall|k: int|
                    0 <= k < i ==> (#[trigger] frames@[k])@ == arp_request_frame(
                        self.interface.mac,
                        self.interface.ip,
                        rest@[k],
                    ),
            decreases rest@.len() - i,
        {
            frames.push(create_arp_request(self.interface.mac, self.interface.ip, rest[i]));
            i += 1;
        }
        assert(frames_view(frames@) =~= requests_for(self.interface, rest@));
        self.rounds_sent = self.rounds_sent + 1;
        self.sent = Ghost(self.sent@ + frames_view(frames@));
        Some(frames)
    }

    /// Takes in one event and returns the requests to send on it: those of
    /// the round where one fell due, none otherwise.
    pub fn handle_event(&mut self, event: &LinkEvent) -> (requests: Vec<Vec<u8>>)
        ensures
            old(self).wf() ==> final(self).wf(),
            final(self).setup() == old(self).setup(),
            final(self).progress() == scan_step(old(self).setup(), old(self).progress(), *event),
            old(self).progress().sent + frames_view(requests@) == final(self).progress().sent,
    {
        match event {
            LinkEvent::Frame(frame) => {
                self.table.handle_frame(frame.as_slice());
                let none: Vec<Vec<u8>> = Vec::new();
                assert(self.progress().sent =~= old(self).progress().sent + frames_view(none@));
                none
            },
            LinkEvent::RoundDue => {
                match self.next_round() {
                    Some(frames) => frames,
                    None => {
                        let none: Vec<Vec<u8>> = Vec::new();
                        assert(self.progress().sent =~= old(self).progress().sent + frames_view(
                            none@,
                        ));
                        none
                    },
                }
            },
        }
    }

    /// Takes in a run of events in order and returns every request sent on
    /// them, in order.
    pub fn run(&mut self, events: &Vec<LinkEvent>) -> (requests: Vec<Vec<u8>>)
        ensures
            old(self).wf() ==> final(self).wf(),
            final(self).setup() == old(self).setup(),
            final(self).progress() == scan_run(old(self).setup(), old(self).progress(), events@),
            old(self).progress().sent + frames_view(requests@) == final(self).progress().sent,
    {
        let mut requests: Vec<Vec<u8>> = Vec::new();
        let mut i: usize = 0;
        assert(events@.take(0) =~= Seq::<LinkEvent>::empty());
        assert(old(self).progress().sent + frames_view(requests@) =~= old(self).progress().sent);
        while i < events.len()
            invariant
                0 <= i <= events@.len(),
                old(self).wf() ==> self.wf(),
                self.setup() == old(self).setup(),
                self.progress() == scan_run(
                    old(self).setup(),
                    old(self).progress(),
                    events@.take(i as int),
                ),
                old(self).progress().sent + frames_view(requests@) == self.progress().sent,
            decreases events@.len() - i,
        {
            let ghost before = requests@;
            let mut batch = self.handle_event(&events[i]);
            proof {
                assert(events@.take(i + 1).drop_last() =~= events@.take(i as int));
                assert(events@.take(i + 1).last() == events@[i as int]);
            }
            let ghost added = batch@;
            requests.append(&mut batch);
            proof {
                assert(frames_view(requests@) =~= frames_view(before) + frames_view(added));
                assert(old(self).progress().sent + frames_view(requests@) =~= (old(
                    self,
                ).progress().sent + frames_view(before)) + frames_view(added));
            }
            i += 1;
        }
        assert(events@.take(events@.len() as int) =~= events@);
        requests
    }

    /// How many rounds are still to be sent.
    pub fn rounds_left(&self) -> (left: u32)
        ensures
            left == (if self.progress().rounds_sent <= self.setup().rounds {
                self.setup().rounds - self.progress().rounds_sent
            } else {
                0
            }),
    {
        if self.rounds_sent <= self.rounds {
            self.rounds - self.rounds_sent
        } else {
            0
        }
    }

    /// The table as it stands.
    pub fn table(&self) -> (table: &DiscoveryTable)
        ensures
            table@ == self.progress().found,
            table.spec_subnet() == self.setup().subnet,
            self.wf() ==> table.wf(),
    {
        &self.table
    }

    /// Ends the scan and hands out what it found.
    pub fn finish(self) -> (found: HashMap<u32, MacAddr>)
        ensures
            found@ == self.progress().found,
    {
        self.table.into_map()
    }
}

/// Link-layer discovery over a run of events: the addresses that the frames
/// among the events resolve, each with the hardware address of the first
/// acceptable reply that named it. Rounds that fall due send their requests to
/// the targets unresolved at that moment and change nothing in what is found.
/// That nothing is found is no failure.
pub fn active_arp_scan(
    interface: &InterfaceInfo,
    target_ips: &[u32],
    subnet: &Subnet,
    rounds: u32,
    events: &Vec<LinkEvent>,
) -> (found: HashMap<u32, MacAddr>)
    ensures
        found@ == scan_run(
            ScanSetup {
                interface: *interface,
                subnet: *subnet,
                targets: target_ips@,
                rounds: rounds as nat,
            },
            scan_start(),
            events@,
        ).found,
        found@ == observe_all(Map::empty(), *subnet, received(events@)),
        forall|ip: u32| #[trigger] found@.contains_key(ip) ==> acceptable(*subnet, ip),
{
    let mut scan = ArpScan::new(*interface, *subnet, slice_to_vec(target_ips), rounds);
    let _ = scan.run(events);
    proof {
        lemma_scan_run_table(scan.setup(), scan_start(), events@);
        lemma_only_hosts_enter(Map::empty(), *subnet, received(events@));
    }
    scan.finish()
}

/// Whether a frame is a reply that counts on `subnet`.
pub open spec fn is_acceptable_reply(subnet: Subnet, frame: Seq<u8>) -> bool {
    spec_parse_arp_reply(frame) matches Some(reply) && acceptable(subnet, reply.sender_ip)
}

/// Taking in one run of frames after another is taking in the two as one.
pub proof fn lemma_observe_all_concat(
    found: Map<u32, MacAddr>,
    subnet: Subnet,
    first: Seq<Seq<u8>>,
    second: Seq<Seq<u8>>,
)
    ensures
        observe_all(found, subnet, first + second) == observe_all(
            observe_all(found, subnet, first),
            subnet,
            second,
        ),
    decreases second.len(),
{
    if second.len() == 0 {
        assert(first + second =~= first);
    } else {
        assert((first + second).drop_last() =~= first + second.drop_last());
        assert((first + second).last() == second.last());
        lemma_observe_all_concat(found, subnet, first, second.drop_last());
    }
}

/// An address that is in the table stays in it, with the hardware address it
/// has: no later frame overwrites an entry.
pub proof fn lemma_entries_persist(
    found: Map<u32, MacAddr>,
    subnet: Subnet,
    frames: Seq<Seq<u8>>,
    ip: u32,
)
    requires
        found.contains_key(ip),
    ensures
        observe_all(found, subnet, frames).contains_key(ip),
        observe_all(found, subnet, frames)[ip] == found[ip],
    decreases frames.len(),
{
    if frames.len() > 0 {
        lemma_entries_persist(found, subnet, frames.drop_last(), ip);
    }
}

/// The first acceptable reply for an address decides its entry: whatever
/// arrives after it, the address resolves to that reply's sender.
pub proof fn lemma_first_reply_wins(
    found: Map<u32, MacAddr>,
    subnet: Subnet,
    before: Seq<Seq<u8>>,
    frame: Seq<u8>,
    after: Seq<Seq<u8>>,
)
    requires
        is_acceptable_reply(subnet, frame),
        !observe_all(found, subnet, before).contains_key(
            spec_parse_arp_reply(frame)->Some_0.sender_ip,
        ),
    ensures
        ({
            let reply = spec_parse_arp_reply(frame)->Some_0;
            let table = observe_all(found, subnet, before + seq![frame] + after);
            table.contains_key(reply.sender_ip) && table[reply.sender_ip] == reply.sender_mac
        }),
{
    let reply = spec_parse_arp_reply(frame)->Some_0;
    let early = observe_all(found, subnet, before);
    let one = seq![frame];
    assert(observe_all(early, subnet, one.drop_last()) == early);
    assert(observe_all(early, subnet, one) == observe(early, subnet, frame));
    lemma_observe_all_concat(found, subnet, before, one);
    lemma_observe_all_concat(found, subnet, before + one, after);
    lemma_entries_persist(observe_all(found, subnet, before + one), subnet, after, reply.sender_ip);
}

/// Frames add host addresses only: an address in the table was there at the
/// start or is acceptable on the subnet. The network and the broadcast
/// address never enter a table that did not hold them.
pub proof fn lemma_only_hosts_enter(found: Map<u32, MacAddr>, subnet: Subnet, frames: Seq<Seq<u8>>)
    ensures
        forall|ip: u32| #[trigger]
            observe_all(found, subnet, frames).contains_key(ip) ==> found.contains_key(ip)
                || acceptable(subnet, ip),
        !found.contains_key(subnet.spec_network()) ==> !observe_all(
            found,
            subnet,
            frames,
        ).contains_key(subnet.spec_network()),
        !found.contains_key(subnet.spec_broadcast()) ==> !observe_all(
            found,
            subnet,
            frames,
        ).contains_key(subnet.spec_broadcast()),
    decreases frames.len(),
{
    if frames.len() > 0 {
        lemma_only_hosts_enter(found, subnet, frames.drop_last());
        let earlier = observe_all(found, subnet, frames.drop_last());
        assert forall|ip: u32| #[trigger]
            observe_all(found, subnet, frames).contains_key(ip) implies found.contains_key(ip)
            || acceptable(subnet, ip) by {
            if !earlier.contains_key(ip) {
                assert(is_acceptable_reply(subnet, frames.last()));
            }
        }
    }
}

/// Without a responder nothing is found: where no frame is an acceptable
/// reply, the table ends as it began.
pub proof fn lemma_no_responders(found: Map<u32, MacAddr>, subnet: Subnet, frames: Seq<Seq<u8>>)
    requires
        forall|i: int| 0 <= i < frames.len() ==> !is_acceptable_reply(subnet, #[trigger] frames[i]),
    ensures
        observe_all(found, subnet, frames) == found,
    decreases frames.len(),
{
    if frames.len() > 0 {
        assert forall|i: int| 0 <= i < frames.drop_last().len() implies !is_acceptable_reply(
            subnet,
            #[trigger] frames.drop_last()[i],
        ) by {
            assert(frames.drop_last()[i] == frames[i]);
        }
        lemma_no_responders(found, subnet, frames.drop_last());
        assert(!is_acceptable_reply(subnet, frames[frames.len() - 1]));
    }
}

/// Every acceptable reply among the frames leaves its sender in the table.
pub proof fn lemma_responders_found(
    found: Map<u32, MacAddr>,
    subnet: Subnet,
    frames: Seq<Seq<u8>>,
    i: int,
)
    requires
        0 <= i < frames.len(),
        is_acceptable_reply(subnet, frames[i]),
    ensures
        observe_all(found, subnet, frames).contains_key(
            spec_parse_arp_reply(frames[i])->Some_0.sender_ip,
        ),
    decreases frames.len(),
{
    if i < frames.len() - 1 {
        assert(frames.drop_last()[i] == frames[i]);
        lemma_responders_found(found, subnet, frames.drop_last(), i);
    }
}

/// Frames whose senders the table already holds change nothing.
proof fn lemma_known_senders(found: Map<u32, MacAddr>, subnet: Subnet, frames: Seq<Seq<u8>>)
    requires
        forall|i: int|
            0 <= i < frames.len() && is_acceptable_reply(subnet, #[trigger] frames[i])
                ==> found.contains_key(spec_parse_arp_reply(frames[i])->Some_0.sender_ip),
    ensures
        observe_all(found, subnet, frames) == found,
    decreases frames.len(),
{
    if frames.len() > 0 {
        assert forall|i: int|
            0 <= i < frames.drop_last().len() && is_acceptable_reply(
                subnet,
                #[trigger] frames.drop_last()[i],
            ) implies found.contains_key(
            spec_parse_arp_reply(frames.drop_last()[i])->Some_0.sender_ip,
        ) by {
            assert(frames.drop_last()[i] == frames[i]);
        }
        lemma_known_senders(found, subnet, frames.drop_last());
        let last = frames[frames.len() - 1];
        if is_acceptable_reply(subnet, last) {
            assert(found.contains_key(spec_parse_arp_reply(last)->Some_0.sender_ip));
        }
    }
}

/// A second pass over the same frames finds what the first pass found: the
/// table that a run of frames leaves is unchanged by the same run again.
pub proof fn lemma_second_pass_changes_nothing(
    found: Map<u32, MacAddr>,
    subnet: Subnet,
    frames: Seq<Seq<u8>>,
)
    ensures
        observe_all(observe_all(found, subnet, frames), subnet, frames) == observe_all(
            found,
            subnet,
            frames,
        ),
{
    let once = observe_all(found, subnet, frames);
    assert forall|i: int|
        0 <= i < frames.len() && is_acceptable_reply(
            subnet,
            #[trigger] frames[i],
        ) implies once.contains_key(spec_parse_arp_reply(frames[i])->Some_0.sender_ip) by {
        lemma_responders_found(found, subnet, frames, i);
    }
    lemma_known_senders(once, subnet, frames);
}

/// What a scan finds depends on the frames that arrive and on their order,
/// not on when the rounds fall due. The rounds sent never pass the rounds
/// asked for.
pub proof fn lemma_scan_run_table(setup: ScanSetup, progress: ScanProgress, events: Seq<LinkEvent>)
    ensures
        scan_run(setup, progress, events).found == observe_all(
            progress.found,
            setup.subnet,
            received(events),
        ),
        progress.rounds_sent <= setup.rounds ==> scan_run(setup, progress, events).rounds_sent
            <= setup.rounds,
    decreases events.len(),
{
    if events.len() > 0 {
        lemma_scan_run_table(setup, progress, events.drop_last());
        match events.last() {
            LinkEvent::Frame(frame) => {
                assert(received(events).drop_last() =~= received(events.drop_last()));
            },
            LinkEvent::RoundDue => {},
        }
    }
}

/// Two scans of one subnet that receive the same frames in the same order end
/// with the same table, whatever else differs between them.
pub proof fn lemma_same_medium_same_table(
    first: ScanSetup,
    second: ScanSetup,
    first_events: Seq<LinkEvent>,
    second_events: Seq<LinkEvent>,
)
    requires
        first.subnet == second.subnet,
        received(first_events) == received(second_events),
    ensures
        scan_run(first, scan_start(), first_events).found == scan_run(
            second,
            scan_start(),
            second_events,
        ).found,
{
    lemma_scan_run_table(first, scan_start(), first_events);
    lemma_scan_run_table(second, scan_start(), second_events);
}

} // verus!
