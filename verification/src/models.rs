//! The plain data that the scan phases exchange.

use vstd::prelude::*;
use vstd::string::StringExecFns;
use crate::text::{contains_text, spec_contains_text};

verus! {

/// A 48-bit hardware address, first octet on the wire first.
#[derive(Clone, Copy, Debug, PartialEq, Eq, Hash, Structural)]
pub struct MacAddr(pub u8, pub u8, pub u8, pub u8, pub u8, pub u8);

/// The address `a.b.c.d` as an integer.
pub open spec fn spec_ipv4(a: u8, b: u8, c: u8, d: u8) -> u32 {
    (a as u32 * 0x100_0000 + b as u32 * 0x1_0000 + c as u32 * 0x100 + d as u32) as u32
}

/// The address `a.b.c.d` as an integer.
#[verifier::when_used_as_spec(spec_ipv4)]
pub fn ipv4(a: u8, b: u8, c: u8, d: u8) -> (ip: u32)
    ensures
        ip == spec_ipv4(a, b, c, d),
{
    a as u32 * 0x100_0000 + b as u32 * 0x1_0000 + c as u32 * 0x100 + d as u32
}

/// The interface a scan starts from: its address, the prefix length of its
/// network and its hardware address.
#[derive(Clone, Copy, Debug)]
pub struct InterfaceInfo {
    pub ip: u32,
    pub prefix_len: u8,
    pub mac: MacAddr,
}

/// What a scan tells of one host: its address, its hardware address, the
/// vendor of that address where one is known, the round-trip time in
/// nanoseconds where the host answered an echo request, and the probed ports
/// that accepted a connection.
#[derive(Debug)]
pub struct HostResult {
    pub ip: u32,
    pub mac: MacAddr,
    pub vendor: Option<String>,
    pub latency_ns: Option<u64>,
    pub open_ports: Vec<u16>,
}

/// The conditions that end a scan.
#[derive(Debug)]
pub enum ScanError {
    /// The interface's address and prefix length name no IPv4 network.
    InvalidSubnet { prefix_len: u8 },
    /// The link was opened, but is no Ethernet channel.
    UnsupportedChannel,
    /// The link could not be opened. `detail` is the text of the cause;
    /// `needs_privilege` says that it points to a missing capture driver or
    /// missing rights.
    ChannelOpen { detail: String, needs_privilege: bool },
}

/// Whether the text of a failure to open the link points to a missing
/// capture driver or missing rights.
pub open spec fn mentions_privilege(detail: Seq<char>) -> bool {
    ||| spec_contains_text(detail, "requires"@)
    ||| spec_contains_text(detail, "permission"@)
    ||| spec_contains_text(detail, "Access"@)
    ||| spec_contains_text(detail, "Npcap"@)
    ||| spec_contains_text(detail, "WinPcap"@)
}

/// What is said before the cause where rights or a driver are missing.
pub open spec fn privilege_advice() -> Seq<char> {
    "Failed to open network interface for ARP scanning.\n\nOn Windows, this requires Npcap to be installed:\n1. Download from: https://npcap.com/#download\n2. Install with 'WinPcap API-compatible Mode' checked\n3. Run this program as Administrator\n\nOriginal error: "@
}

impl ScanError {
    /// The error for a link that could not be opened, from the text of the
    /// cause.
    pub fn channel_open(detail: &str) -> (error: ScanError)
        ensures
            error matches ScanError::ChannelOpen { detail: kept, needs_privilege } && kept@
                == detail@ && needs_privilege == mentions_privilege(detail@),
    {
        let needs_privilege = contains_text(detail, "requires") || contains_text(
            detail,
            "permission",
        ) || contains_text(detail, "Access") || contains_text(detail, "Npcap") || contains_text(
            detail,
            "WinPcap",
        );
        ScanError::ChannelOpen { detail: String::from_str(detail), needs_privilege }
    }

    /// The message of an error.
    pub open spec fn spec_message(&self) -> Seq<char> {
        match self {
            ScanError::InvalidSubnet { .. } => "Failed to create network from interface IP and prefix"@,
            ScanError::UnsupportedChannel => "Unsupported channel type"@,
            ScanError::ChannelOpen { detail, needs_privilege } => if *needs_privilege {
                privilege_advice() + detail@
            } else {
                "Failed to open datalink channel: "@ + detail@
            },
        }
    }

    /// The message of an error, for the operator. Where rights or a capture
    /// driver are missing it says what to install and how to run.
    pub fn message(&self) -> (text: String)
        ensures
            text@ == self.spec_message(),
    {
        match self {
            ScanError::InvalidSubnet { .. } => String::from_str(
                "Failed to create network from interface IP and prefix",
            ),
            ScanError::UnsupportedChannel => String::from_str("Unsupported channel type"),
            ScanError::ChannelOpen { detail, needs_privilege } => {
                let mut text = if *needs_privilege {
                    String::from_str(
                        "Failed to open network interface for ARP scanning.\n\nOn Windows, this requires Npcap to be installed:\n1. Download from: https://npcap.com/#download\n2. Install with 'WinPcap API-compatible Mode' checked\n3. Run this program as Administrator\n\nOriginal error: ",
                    )
                } else {
                    String::from_str("Failed to open datalink channel: ")
                };
                text.append(detail.as_str());
                text
            },
        }
    }
}

} // verus!
