//! Host discovery on a local IPv4 subnet: subnet enumeration, link-layer
//! address resolution, latency and port probing, and the assembly of the
//! per-host results.
//!
//! The library does no input or output. Each phase is an engine that is told
//! what happened on the network and says what to do next; the caller owns the
//! sockets, the threads and the clock.
//!
//! IPv4 addresses are `u32` values in host byte order (`192.168.1.10` is
//! `0xC0A8_010A`), so that they order and hash as the integers they are.

pub mod config;
pub mod lemmas;
pub mod models;
pub mod network;
pub mod orchestrator;
pub mod report;
pub mod scanner;
pub mod text;

pub use config::ScanConfig;
pub use models::{ipv4, HostResult, InterfaceInfo, MacAddr, ScanError};
pub use network::subnet::{calculate_subnet_ips, is_special_address, Subnet};
pub use network::vendor::{lookup_vendor, VendorDb};
pub use orchestrator::{scan, Link, Medium};
pub use report::ScanReport;
pub use scanner::arp::{active_arp_scan, ArpScan, DiscoveryTable, LinkEvent};
pub use scanner::frame::{create_arp_request, parse_arp_reply, ArpReply};
pub use scanner::gate::ProbeGate;
pub use scanner::icmp::{icmp_scan, rand_id, PingProbe};
pub use scanner::tcp::{tcp_probe_scan, PortProbe};
