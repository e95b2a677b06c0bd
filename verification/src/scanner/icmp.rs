//! Latency probing: echo identifiers, and the attempts made on one host.
//!
//! The echo requests themselves are sent elsewhere. A probe is told how each
//! attempt ended and decides whether another is due.

use std::collections::HashMap;
use std::time::SystemTime;
use vstd::prelude::*;
use crate::lemmas::lemma_take_contains_next;

verus! {

/// `SystemTime::now` as the nanoseconds since the Unix epoch; zero where the
/// clock stands before the epoch.
#[verifier::external_body]
fn unix_nanos() -> u128 {
    SystemTime::now().duration_since(SystemTime::UNIX_EPOCH).unwrap_or_default().as_nanos()
}

/// The echo identifier for a reading of the clock: the reading modulo 65535,
/// plus one.
pub open spec fn spec_ping_id(nanos: u128) -> u16 {
    (nanos % 0xFFFF + 1) as u16
}

/// The echo identifier for a reading of the clock. It is never zero.
pub fn ping_id(nanos: u128) -> (id: u16)
    ensures
        id == spec_ping_id(nanos),
        id >= 1,
{
    ((nanos % 0xFFFF) as u16).wrapping_add(1)
}

/// An echo identifier taken from the clock. It is never zero.
pub fn rand_id() -> (id: u16)
    ensures
        id >= 1,
        exists|nanos: u128| id == spec_ping_id(nanos),
{
    let nanos = unix_nanos();
    ping_id(nanos)
}

/// Where a probe stands: the attempts made, and the round-trip time of the
/// attempt that was answered.
pub struct ProbeProgress {
    pub attempts: nat,
    pub latency_ns: Option<u64>,
}

/// Whether a probe makes no further attempt: it was answered, or its
/// attempts are used up.
pub open spec fn probe_finished(retries: nat, progress: ProbeProgress) -> bool {
    progress.latency_ns is Some || progress.attempts >= retries
}

/// A probe after one more attempt has ended: with its round-trip time where
/// it was answered, with nothing where it timed out or failed. A finished
/// probe takes no more attempts in.
pub open spec fn probe_step(retries: nat, progress: ProbeProgress, outcome: Option<u64>) -> ProbeProgress {
    if probe_finished(retries, progress) {
        progress
    } else {
        ProbeProgress { attempts: progress.attempts + 1, latency_ns: outcome }
    }
}

/// A probe before its first attempt.
pub open spec fn probe_start() -> ProbeProgress {
    ProbeProgress { attempts: 0, latency_ns: None }
}

/// A probe after a run of attempts, taken in order.
pub open spec fn probe_run(retries: nat, progress: ProbeProgress, outcomes: Seq<Option<u64>>) -> ProbeProgress
    decreases outcomes.len(),
{
    if outcomes.len() == 0 {
        progress
    } else {
        probe_step(retries, probe_run(retries, progress, outcomes.drop_last()), outcomes.last())
    }
}

/// The latency probe of one host: up to `retries` echo requests, one after
/// the other, until one is answered.
#[derive(Debug)]
pub struct PingProbe {
    ip: u32,
    retries: u32,
    attempts: u32,
    latency_ns: Option<u64>,
}

impl PingProbe {
    /// The host probed.
    pub closed spec fn spec_ip(&self) -> u32 {
        self.ip
    }

    /// The attempts allowed.
    pub closed spec fn spec_retries(&self) -> nat {
        self.retries as nat
    }

    /// Where the probe stands.
    pub closed spec fn progress(&self) -> ProbeProgress {
        ProbeProgress { attempts: self.attempts as nat, latency_ns: self.latency_ns }
    }

    /// A probe of `ip` that makes up to `retries` attempts.
    pub fn new(ip: u32, retries: u32) -> (probe: PingProbe)
        ensures
            probe.spec_ip() == ip,
            probe.spec_retries() == retries,
            probe.progress() == probe_start(),
    {
        PingProbe { ip, retries, attempts: 0, latency_ns: None }
    }

    /// The host probed.
    #[verifier::when_used_as_spec(spec_ip)]
    pub fn ip(&self) -> (ip: u32)
        ensures
            ip == self.spec_ip(),
    {
        self.ip
    }

    /// Whether the probe makes no further attempt.
    pub fn is_finished(&self) -> (done: bool)
        ensures
            done == probe_finished(self.spec_retries(), self.progress()),
    {
        self.latency_ns.is_some() || self.attempts >= self.retries
    }

    /// The sequence number of the attempt that is due: the count of the
    /// attempts made, cut to sixteen bits. `None` once the probe is finished.
    pub fn next_sequence(&self) -> (sequence: Option<u16>)
        ensures
            sequence is None <==> probe_finished(self.spec_retries(), self.progress()),
            sequence matches Some(number) ==> number == self.progress().attempts % 0x1_0000,
    {
        if self.is_finished() {
            None
        } else {
            Some((self.attempts % 0x1_0000) as u16)
        }
    }

    /// Takes in how the attempt that was due has ended: with its round-trip
    /// time in nanoseconds where an echo reply came, with `None` where it
    /// timed out or failed.
    pub fn record_attempt(&mut self, outcome: Option<u64>)
        ensures
            final(self).spec_ip() == old(self).spec_ip(),
            final(self).spec_retries() == old(self).spec_retries(),
            final(self).progress() == probe_step(
                old(self).spec_retries(),
                old(self).progress(),
                outcome,
            ),
    {
        if !self.is_finished() {
            self.attempts = self.attempts + 1;
            self.latency_ns = outcome;
        }
    }

    /// Takes in a run of attempts in order.
    pub fn record_attempts(&mut self, outcomes: &Vec<Option<u64>>)
        ensures
            final(self).spec_ip() == old(self).spec_ip(),
            final(self).spec_retries() == old(self).spec_retries(),
            final(self).progress() == probe_run(
                old(self).spec_retries(),
                old(self).progress(),
                outcomes@,
            ),
    {
        let mut i: usize = 0;
        assert(outcomes@.take(0) =~= Seq::<Option<u64>>::empty());
        while i < outcomes.len()
            invariant
                0 <= i <= outcomes@.len(),
                self.spec_ip() == old(self).spec_ip(),
                self.spec_retries() == old(self).spec_retries(),
                self.progress() == probe_run(
                    old(self).spec_retries(),
                    old(self).progress(),
                    outcomes@.take(i as int),
                ),
            decreases outcomes@.len() - i,
        {
            proof {
                assert(outcomes@.take(i + 1).drop_last() =~= outcomes@.take(i as int));
                assert(outcomes@.take(i + 1).last() == outcomes@[i as int]);
            }
            self.record_attempt(outcomes[i]);
            i += 1;
        }
        assert(outcomes@.take(outcomes@.len() as int) =~= outcomes@);
    }

    /// The round-trip time of the attempt that was answered, in nanoseconds;
    /// `None` while no attempt was.
    pub fn latency_ns(&self) -> (latency: Option<u64>)
        ensures
            latency == self.progress().latency_ns,
    {
        self.latency_ns
    }
}

/// A probe never makes more attempts than it is allowed.
pub proof fn lemma_attempts_bounded(retries: nat, outcomes: Seq<Option<u64>>)
    ensures
        probe_run(retries, probe_start(), outcomes).attempts <= retries,
        probe_run(retries, probe_start(), outcomes).attempts <= outcomes.len(),
    decreases outcomes.len(),
{
    if outcomes.len() > 0 {
        lemma_attempts_bounded(retries, outcomes.drop_last());
    }
}

/// Where every attempt fails, the probe ends without a latency.
pub proof fn lemma_all_attempts_fail(retries: nat, outcomes: Seq<Option<u64>>)
    requires
        forall|i: int| 0 <= i < outcomes.len() ==> outcomes[i] is None,
    ensures
        probe_run(retries, probe_start(), outcomes).latency_ns is None,
        probe_run(retries, probe_start(), outcomes).attempts == (if outcomes.len() <= retries {
            outcomes.len()
        } else {
            retries
        }),
    decreases outcomes.len(),
{
    if outcomes.len() > 0 {
        lemma_all_attempts_fail(retries, outcomes.drop_last());
    }
}

/// The latency is that of the first attempt answered: where attempt `k` is
/// within the attempts allowed and is the first with a reply, the probe ends
/// with that attempt's round-trip time, whatever the attempts before it took
/// and whatever comes after it.
pub proof fn lemma_first_answer_counts(retries: nat, outcomes: Seq<Option<u64>>, k: int)
    requires
        0 <= k < outcomes.len(),
        k < retries,
        outcomes[k] is Some,
        forall|i: int| 0 <= i < k ==> outcomes[i] is None,
    ensures
        probe_run(retries, probe_start(), outcomes).latency_ns == outcomes[k],
        probe_run(retries, probe_start(), outcomes).attempts == k + 1,
    decreases outcomes.len(),
{
    let earlier = outcomes.drop_last();
    if k == outcomes.len() - 1 {
        lemma_all_attempts_fail(retries, earlier);
    } else {
        lemma_first_answer_counts(retries, earlier, k);
    }
}

/// The latency that a probe ends with on a run of attempts.
pub open spec fn probe_latency(retries: nat, outcomes: Seq<Option<u64>>) -> Option<u64> {
    probe_run(retries, probe_start(), outcomes).latency_ns
}

/// How the attempts on a host end under a script of the echo facility: as
/// the script says, attempt by attempt; a host that the script does not name
/// is never answered.
pub open spec fn scripted_outcomes(script: Map<u32, Vec<Option<u64>>>, ip: u32) -> Seq<Option<u64>> {
    if script.contains_key(ip) {
        script[ip]@
    } else {
        Seq::empty()
    }
}

/// The latencies of a list of hosts under a script of the echo facility: an
/// entry for each host that is answered within its attempts, none for the
/// others.
pub open spec fn scripted_latencies(
    hosts: Seq<u32>,
    retries: u32,
    script: Map<u32, Vec<Option<u64>>>,
) -> Map<u32, u64> {
    Map::new(
        |ip: u32|
            hosts.contains(ip) && probe_latency(retries as nat, scripted_outcomes(script, ip))
                is Some,
        |ip: u32| probe_latency(retries as nat, scripted_outcomes(script, ip))->Some_0,
    )
}

fn probe_hosts(hosts: &[u32], retries: u32, script: &HashMap<u32, Vec<Option<u64>>>) -> (latencies:
    HashMap<u32, u64>)
    ensures
        latencies@ == scripted_latencies(hosts@, retries, script@),
{
    let mut latencies: HashMap<u32, u64> = HashMap::new();
    let mut i: usize = 0;
    assert(latencies@ =~= scripted_latencies(hosts@.take(0), retries, script@));
    while i < hosts.len()
        invariant
            0 <= i <= hosts@.len(),
            latencies@ == scripted_latencies(hosts@.take(i as int), retries, script@),
        decreases hosts@.len() - i,
    {
        let ip = hosts[i];
        let mut probe = PingProbe::new(ip, retries);
        match script.get(&ip) {
            Some(outcomes) => {
                probe.record_attempts(outcomes);
            },
            None => {},
        }
        match probe.latency_ns() {
            Some(latency_ns) => {
                latencies.insert(ip, latency_ns);
            },
            None => {},
        }
        proof {
            assert(probe.progress().latency_ns == probe_latency(
                retries as nat,
                scripted_outcomes(script@, ip),
            ));
            assert forall|other: u32|
                hosts@.take(i + 1).contains(other) <==> hosts@.take(i as int).contains(other)
                    || other == ip by {
                lemma_take_contains_next(hosts@, i as int, other);
            }
            assert(latencies@ =~= scripted_latencies(hosts@.take(i + 1), retries, script@));
        }
        i += 1;
    }
    proof {
        assert(hosts@.take(hosts@.len() as int) =~= hosts@);
    }
    latencies
}

/// Latency probing over a script of the echo facility: each host is probed
/// with up to `retries` attempts that end as the script says, and has its
/// round-trip time recorded if one of them is answered. Without an echo
/// facility (`None`) nothing is measured, which is no failure.
pub fn icmp_scan(
    hosts: &[u32],
    retries: u32,
    echoes: Option<&HashMap<u32, Vec<Option<u64>>>>,
) -> (latencies: HashMap<u32, u64>)
    ensures
        latencies@ == (match echoes {
            Some(script) => scripted_latencies(hosts@, retries, script@),
            None => Map::empty(),
        }),
        forall|ip: u32| #[trigger] latencies@.contains_key(ip) ==> hosts@.contains(ip),
{
    match echoes {
        Some(script) => probe_hosts(hosts, retries, script),
        None => HashMap::new(),
    }
}

} // verus!
