//! The tunables of a scan and their defaults.

use vstd::prelude::*;

verus! {

/// How many rounds of requests link-layer discovery sends.
pub const ARP_ROUNDS: u32 = 3;

/// How long one round of link-layer discovery lasts, in milliseconds.
pub const ARP_TIMEOUT_MS: u64 = 1500;

/// How long the receiver listens on after the last round, in milliseconds.
pub const ARP_GRACE_MS: u64 = 500;

/// How many echo requests a host is sent at most.
pub const PING_RETRIES: u32 = 2;

/// How long one echo request waits for its reply, in milliseconds.
pub const PING_TIMEOUT_MS: u64 = 1000;

/// How many hosts are probed for latency at the same time.
pub const MAX_CONCURRENT_PINGS: usize = 50;

/// How long one connection attempt waits, in milliseconds.
pub const TCP_TIMEOUT_MS: u64 = 500;

/// How many hosts are probed for open ports at the same time.
pub const MAX_CONCURRENT_PROBES: usize = 50;

/// The ports probed by default: FTP, SSH, Telnet, SMTP, DNS, HTTP, POP3,
/// NetBIOS, IMAP, HTTPS, SMB, RDP, and the usual alternative HTTP port.
pub open spec fn spec_default_ports() -> Seq<u16> {
    seq![21u16, 22, 23, 25, 53, 80, 110, 139, 143, 443, 445, 3389, 8080]
}

/// The ports probed by default.
pub fn default_ports() -> (ports: Vec<u16>)
    ensures
        ports@ == spec_default_ports(),
{
    let ports: Vec<u16> = vec![21u16, 22, 23, 25, 53, 80, 110, 139, 143, 443, 445, 3389, 8080];
    assert(ports@ =~= spec_default_ports());
    ports
}

/// The tunables of a scan.
#[derive(Debug)]
pub struct ScanConfig {
    pub arp_rounds: u32,
    pub arp_timeout_ms: u64,
    pub ping_retries: u32,
    pub ping_timeout_ms: u64,
    pub max_concurrent_pings: usize,
    pub tcp_ports: Vec<u16>,
    pub tcp_timeout_ms: u64,
    pub max_concurrent_probes: usize,
}

impl Default for ScanConfig {
    fn default() -> (config: ScanConfig)
        ensures
            config.arp_rounds == ARP_ROUNDS,
            config.arp_timeout_ms == ARP_TIMEOUT_MS,
            config.ping_retries == PING_RETRIES,
            config.ping_timeout_ms == PING_TIMEOUT_MS,
            config.max_concurrent_pings == MAX_CONCURRENT_PINGS,
            config.tcp_ports@ == spec_default_ports(),
            config.tcp_timeout_ms == TCP_TIMEOUT_MS,
            config.max_concurrent_probes == MAX_CONCURRENT_PROBES,
    {
        ScanConfig {
            arp_rounds: ARP_ROUNDS,
            arp_timeout_ms: ARP_TIMEOUT_MS,
            ping_retries: PING_RETRIES,
            ping_timeout_ms: PING_TIMEOUT_MS,
            max_concurrent_pings: MAX_CONCURRENT_PINGS,
            tcp_ports: default_ports(),
            tcp_timeout_ms: TCP_TIMEOUT_MS,
            max_concurrent_probes: MAX_CONCURRENT_PROBES,
        }
    }
}

/// How long the receiver listens in all: every round in full, then the grace
/// period. The sum stops at the largest value that fits.
pub open spec fn spec_listen_window_ms(rounds: u32, round_ms: u64) -> u64 {
    if round_ms * rounds + ARP_GRACE_MS <= u64::MAX {
        (round_ms * rounds + ARP_GRACE_MS) as u64
    } else {
        u64::MAX
    }
}

/// How long the receiver listens in all, in milliseconds.
pub fn listen_window_ms(rounds: u32, round_ms: u64) -> (window: u64)
    ensures
        window == spec_listen_window_ms(rounds, round_ms),
{
    match round_ms.checked_mul(rounds as u64) {
        Some(all_rounds) => all_rounds.saturating_add(ARP_GRACE_MS),
        None => u64::MAX,
    }
}

/// How long a round still has to wait once its requests are sent: what is
/// left of the round's time, nothing once it is used up.
pub fn round_wait_ms(round_ms: u64, elapsed_ms: u64) -> (wait: u64)
    ensures
        wait == (if elapsed_ms < round_ms {
            round_ms - elapsed_ms
        } else {
            0
        }),
{
    round_ms.saturating_sub(elapsed_ms)
}

} // verus!
