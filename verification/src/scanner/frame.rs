//! The frames of address resolution for IPv4 over Ethernet: how a request is
//! laid out, and how a reply is recognised and read.

use vstd::prelude::*;
use crate::models::{ipv4, spec_ipv4, MacAddr};

verus! {

/// The length of an address-resolution frame for IPv4 over Ethernet.
pub const ARP_FRAME_LEN: usize = 42;

/// The EtherType of IPv4.
pub const ETHERTYPE_IPV4: u16 = 0x0800;

/// The EtherType of address resolution.
pub const ETHERTYPE_ARP: u16 = 0x0806;

/// The hardware type of Ethernet.
pub const HARDWARE_ETHERNET: u16 = 1;

/// The operation code of a request.
pub const OPERATION_REQUEST: u16 = 1;

/// The operation code of a reply.
pub const OPERATION_REPLY: u16 = 2;

/// The hardware address that every station on the segment receives.
pub open spec fn spec_broadcast_mac() -> MacAddr {
    MacAddr(0xff, 0xff, 0xff, 0xff, 0xff, 0xff)
}

/// The hardware address that every station on the segment receives.
#[verifier::when_used_as_spec(spec_broadcast_mac)]
pub fn broadcast_mac() -> (mac: MacAddr)
    ensures
        mac == spec_broadcast_mac(),
{
    MacAddr(0xff, 0xff, 0xff, 0xff, 0xff, 0xff)
}

/// The hardware address that stands for "not known".
pub open spec fn spec_zero_mac() -> MacAddr {
    MacAddr(0, 0, 0, 0, 0, 0)
}

/// The hardware address that stands for "not known".
#[verifier::when_used_as_spec(spec_zero_mac)]
pub fn zero_mac() -> (mac: MacAddr)
    ensures
        mac == spec_zero_mac(),
{
    MacAddr(0, 0, 0, 0, 0, 0)
}

/// The six octets of a hardware address in wire order.
pub open spec fn mac_bytes(mac: MacAddr) -> Seq<u8> {
    seq![mac.0, mac.1, mac.2, mac.3, mac.4, mac.5]
}

/// A 16-bit field in network byte order.
pub open spec fn u16_bytes(value: u16) -> Seq<u8> {
    seq![(value / 0x100) as u8, (value % 0x100) as u8]
}

/// An IPv4 address in network byte order.
pub open spec fn ip_bytes(ip: u32) -> Seq<u8> {
    seq![
        (ip / 0x100_0000) as u8,
        (ip / 0x1_0000 % 0x100) as u8,
        (ip / 0x100 % 0x100) as u8,
        (ip % 0x100) as u8,
    ]
}

/// The 16-bit value whose network-order octets are `high`, `low`.
pub open spec fn spec_u16_of(high: u8, low: u8) -> u16 {
    (high as u16 * 0x100 + low as u16) as u16
}

/// An Ethernet header: destination, source, EtherType.
pub open spec fn ethernet_header(destination: MacAddr, source: MacAddr, ethertype: u16) -> Seq<u8> {
    mac_bytes(destination) + mac_bytes(source) + u16_bytes(ethertype)
}

/// The fixed start of an address-resolution packet for IPv4 over Ethernet:
/// hardware type, protocol type, the two address lengths, the operation.
pub open spec fn arp_preamble(operation: u16) -> Seq<u8> {
    u16_bytes(HARDWARE_ETHERNET) + u16_bytes(ETHERTYPE_IPV4) + seq![6u8, 4u8] + u16_bytes(operation)
}

/// The addresses of an address-resolution packet: the sender's hardware and
/// protocol address, then the target's.
pub open spec fn arp_addresses(
    sender_mac: MacAddr,
    sender_ip: u32,
    target_mac: MacAddr,
    target_ip: u32,
) -> Seq<u8> {
    mac_bytes(sender_mac) + ip_bytes(sender_ip) + mac_bytes(target_mac) + ip_bytes(target_ip)
}

/// An Ethernet frame that carries one address-resolution packet for IPv4.
pub open spec fn arp_frame(
    destination: MacAddr,
    source: MacAddr,
    operation: u16,
    sender_mac: MacAddr,
    sender_ip: u32,
    target_mac: MacAddr,
    target_ip: u32,
) -> Seq<u8> {
    ethernet_header(destination, source, ETHERTYPE_ARP) + arp_preamble(operation) + arp_addresses(
        sender_mac,
        sender_ip,
        target_mac,
        target_ip,
    )
}

/// The request that asks the whole segment who holds `target_ip`: sent to the
/// broadcast address, with the asker as sender and the target's hardware
/// address left zero.
pub open spec fn arp_request_frame(source_mac: MacAddr, source_ip: u32, target_ip: u32) -> Seq<u8> {
    arp_frame(
        spec_broadcast_mac(),
        source_mac,
        OPERATION_REQUEST,
        source_mac,
        source_ip,
        spec_zero_mac(),
        target_ip,
    )
}

fn push_mac(buffer: &mut Vec<u8>, mac: MacAddr)
    ensures
        final(buffer)@ == old(buffer)@ + mac_bytes(mac),
{
    buffer.push(mac.0);
    buffer.push(mac.1);
    buffer.push(mac.2);
    buffer.push(mac.3);
    buffer.push(mac.4);
    buffer.push(mac.5);
    assert(buffer@ =~= old(buffer)@ + mac_bytes(mac));
}

fn push_u16(buffer: &mut Vec<u8>, value: u16)
    ensures
        final(buffer)@ == old(buffer)@ + u16_bytes(value),
{
    buffer.push((value / 0x100) as u8);
    buffer.push((value % 0x100) as u8);
    assert(buffer@ =~= old(buffer)@ + u16_bytes(value));
}

fn push_ip(buffer: &mut Vec<u8>, ip: u32)
    ensures
        final(buffer)@ == old(buffer)@ + ip_bytes(ip),
{
    buffer.push((ip / 0x100_0000) as u8);
    buffer.push((ip / 0x1_0000 % 0x100) as u8);
    buffer.push((ip / 0x100 % 0x100) as u8);
    buffer.push((ip % 0x100) as u8);
    assert(buffer@ =~= old(buffer)@ + ip_bytes(ip));
}

/// Builds an Ethernet frame that carries one address-resolution packet.
pub fn build_arp_frame(
    destination: MacAddr,
    source: MacAddr,
    operation: u16,
    sender_mac: MacAddr,
    sender_ip: u32,
    target_mac: MacAddr,
    target_ip: u32,
) -> (frame: Vec<u8>)
    ensures
        frame@ == arp_frame(
            destination,
            source,
            operation,
            sender_mac,
            sender_ip,
            target_mac,
            target_ip,
        ),
        frame@.len() == ARP_FRAME_LEN,
{
    let mut frame: Vec<u8> = Vec::with_capacity(ARP_FRAME_LEN);
    push_mac(&mut frame, destination);
    push_mac(&mut frame, source);
    push_u16(&mut frame, ETHERTYPE_ARP);
    push_u16(&mut frame, HARDWARE_ETHERNET);
    push_u16(&mut frame, ETHERTYPE_IPV4);
    frame.push(6);
    frame.push(4);
    assert(frame@ =~= ethernet_header(destination, source, ETHERTYPE_ARP) + (u16_bytes(
        HARDWARE_ETHERNET,
    ) + u16_bytes(ETHERTYPE_IPV4) + seq![6u8, 4u8]));
    push_u16(&mut frame, operation);
    assert(frame@ =~= ethernet_header(destination, source, ETHERTYPE_ARP) + arp_preamble(
        operation,
    ));
    let ghost fixed = frame@;
    push_mac(&mut frame, sender_mac);
    push_ip(&mut frame, sender_ip);
    push_mac(&mut frame, target_mac);
    push_ip(&mut frame, target_ip);
    assert(frame@ =~= fixed + arp_addresses(sender_mac, sender_ip, target_mac, target_ip));
    frame
}

/// Builds the request that asks the whole segment who holds `target_ip`.
pub fn create_arp_request(source_mac: MacAddr, source_ip: u32, target_ip: u32) -> (frame: Vec<u8>)
    ensures
        frame@ == arp_request_frame(source_mac, source_ip, target_ip),
        frame@.len() == ARP_FRAME_LEN,
{
    build_arp_frame(
        broadcast_mac(),
        source_mac,
        OPERATION_REQUEST,
        source_mac,
        source_ip,
        zero_mac(),
        target_ip,
    )
}

/// What a reply tells: the protocol and the hardware address of its sender.
#[derive(Clone, Copy, Debug, PartialEq, Eq, Structural)]
pub struct ArpReply {
    pub sender_ip: u32,
    pub sender_mac: MacAddr,
}

/// Whether a frame is an address-resolution reply: long enough for the
/// Ethernet header and the packet, with the EtherType of address resolution
/// and the operation code of a reply.
pub open spec fn is_arp_reply(frame: Seq<u8>) -> bool {
    &&& frame.len() >= ARP_FRAME_LEN
    &&& spec_u16_of(frame[12], frame[13]) == ETHERTYPE_ARP
    &&& spec_u16_of(frame[20], frame[21]) == OPERATION_REPLY
}

/// What a frame tells, if it is a reply: the sender's addresses, read from
/// their places in the packet.
pub open spec fn spec_parse_arp_reply(frame: Seq<u8>) -> Option<ArpReply> {
    if is_arp_reply(frame) {
        Some(
            ArpReply {
                sender_ip: spec_ipv4(frame[28], frame[29], frame[30], frame[31]),
                sender_mac: MacAddr(
                    frame[22],
                    frame[23],
                    frame[24],
                    frame[25],
                    frame[26],
                    frame[27],
                ),
            },
        )
    } else {
        None
    }
}

fn u16_of(high: u8, low: u8) -> (value: u16)
    ensures
        value == spec_u16_of(high, low),
{
    high as u16 * 0x100 + low as u16
}

/// Reads a received frame: the sender's addresses where the frame is an
/// address-resolution reply, nothing for any other frame.
pub fn parse_arp_reply(frame: &[u8]) -> (reply: Option<ArpReply>)
    ensures
        reply == spec_parse_arp_reply(frame@),
{
    if frame.len() < ARP_FRAME_LEN {
        return None;
    }
    if u16_of(frame[12], frame[13]) != ETHERTYPE_ARP {
        return None;
    }
    if u16_of(frame[20], frame[21]) != OPERATION_REPLY {
        return None;
    }
    Some(
        ArpReply {
            sender_ip: ipv4(frame[28], frame[29], frame[30], frame[31]),
            sender_mac: MacAddr(
                frame[22],
                frame[23],
                frame[24],
                frame[25],
                frame[26],
                frame[27],
            ),
        },
    )
}

/// Where the EtherType stands in an Ethernet header.
proof fn lemma_header_bytes(destination: MacAddr, source: MacAddr, ethertype: u16)
    ensures
        ethernet_header(destination, source, ethertype).len() == 14,
        ethernet_header(destination, source, ethertype)[12] == (ethertype / 0x100) as u8,
        ethernet_header(destination, source, ethertype)[13] == (ethertype % 0x100) as u8,
{
    let macs = mac_bytes(destination) + mac_bytes(source);
    assert(macs.len() == 12);
    assert(u16_bytes(ethertype).len() == 2);
}

/// Where the operation stands in the fixed start of a packet.
proof fn lemma_preamble_bytes(operation: u16)
    ensures
        arp_preamble(operation).len() == 8,
        arp_preamble(operation)[6] == (operation / 0x100) as u8,
        arp_preamble(operation)[7] == (operation % 0x100) as u8,
{
    let fixed = u16_bytes(HARDWARE_ETHERNET) + u16_bytes(ETHERTYPE_IPV4) + seq![6u8, 4u8];
    assert(fixed.len() == 6);
    assert(u16_bytes(operation).len() == 2);
}

/// Where the sender's addresses stand among the addresses of a packet.
proof fn lemma_address_bytes(
    sender_mac: MacAddr,
    sender_ip: u32,
    target_mac: MacAddr,
    target_ip: u32,
)
    ensures
        ({
            let addresses = arp_addresses(sender_mac, sender_ip, target_mac, target_ip);
            &&& addresses.len() == 20
            &&& addresses[0] == sender_mac.0
            &&& addresses[1] == sender_mac.1
            &&& addresses[2] == sender_mac.2
            &&& addresses[3] == sender_mac.3
            &&& addresses[4] == sender_mac.4
            &&& addresses[5] == sender_mac.5
            &&& addresses[6] == (sender_ip / 0x100_0000) as u8
            &&& addresses[7] == (sender_ip / 0x1_0000 % 0x100) as u8
            &&& addresses[8] == (sender_ip / 0x100 % 0x100) as u8
            &&& addresses[9] == (sender_ip % 0x100) as u8
        }),
{
    let sender = mac_bytes(sender_mac) + ip_bytes(sender_ip);
    assert(mac_bytes(sender_mac).len() == 6);
    assert(ip_bytes(sender_ip).len() == 4);
    assert(sender.len() == 10);
    assert(sender[0] == sender_mac.0 && sender[1] == sender_mac.1 && sender[2] == sender_mac.2);
    assert(sender[3] == sender_mac.3 && sender[4] == sender_mac.4 && sender[5] == sender_mac.5);
    assert(sender[6] == ip_bytes(sender_ip)[0] && sender[7] == ip_bytes(sender_ip)[1]);
    assert(sender[8] == ip_bytes(sender_ip)[2] && sender[9] == ip_bytes(sender_ip)[3]);
    let rest = mac_bytes(target_mac) + ip_bytes(target_ip);
    assert(rest.len() == 10);
    assert(arp_addresses(sender_mac, sender_ip, target_mac, target_ip) =~= sender + rest);
}

/// A frame made of a header, a fixed start and addresses holds each of the
/// three at its place.
proof fn lemma_frame_places(header: Seq<u8>, preamble: Seq<u8>, addresses: Seq<u8>)
    requires
        header.len() == 14,
        preamble.len() == 8,
        addresses.len() == 20,
    ensures
        ({
            let frame = header + preamble + addresses;
            &&& frame.len() == 42
            &&& frame[12] == header[12]
            &&& frame[13] == header[13]
            &&& frame[20] == preamble[6]
            &&& frame[21] == preamble[7]
            &&& frame[22] == addresses[0]
            &&& frame[23] == addresses[1]
            &&& frame[24] == addresses[2]
            &&& frame[25] == addresses[3]
            &&& frame[26] == addresses[4]
            &&& frame[27] == addresses[5]
            &&& frame[28] == addresses[6]
            &&& frame[29] == addresses[7]
            &&& frame[30] == addresses[8]
            &&& frame[31] == addresses[9]
        }),
{
}

/// Two octets in network order make up the value they were taken from, and
/// so do four.
proof fn lemma_octets_make_up(value: u16, ip: u32)
    ensures
        spec_u16_of((value / 0x100) as u8, (value % 0x100) as u8) == value,
        spec_ipv4(
            (ip / 0x100_0000) as u8,
            (ip / 0x1_0000 % 0x100) as u8,
            (ip / 0x100 % 0x100) as u8,
            (ip % 0x100) as u8,
        ) == ip,
{
}

/// Reading undoes building: a built frame reads as a reply exactly when its
/// operation is the reply code, and then tells the sender's addresses that
/// went into it.
pub proof fn lemma_parse_built_frame(
    destination: MacAddr,
    source: MacAddr,
    operation: u16,
    sender_mac: MacAddr,
    sender_ip: u32,
    target_mac: MacAddr,
    target_ip: u32,
)
    ensures
        spec_parse_arp_reply(
            arp_frame(destination, source, operation, sender_mac, sender_ip, target_mac, target_ip),
        ) == if operation == OPERATION_REPLY {
            Some(ArpReply { sender_ip, sender_mac })
        } else {
            None
        },
{
    let header = ethernet_header(destination, source, ETHERTYPE_ARP);
    let preamble = arp_preamble(operation);
    let addresses = arp_addresses(sender_mac, sender_ip, target_mac, target_ip);
    let frame = header + preamble + addresses;
    lemma_header_bytes(destination, source, ETHERTYPE_ARP);
    lemma_preamble_bytes(operation);
    lemma_address_bytes(sender_mac, sender_ip, target_mac, target_ip);
    lemma_frame_places(header, preamble, addresses);
    lemma_octets_make_up(ETHERTYPE_ARP, sender_ip);
    lemma_octets_make_up(operation, sender_ip);
    assert(spec_u16_of(frame[12], frame[13]) == ETHERTYPE_ARP);
    assert(spec_u16_of(frame[20], frame[21]) == operation);
    assert(spec_ipv4(frame[28], frame[29], frame[30], frame[31]) == sender_ip);
}

/// The requests that this library sends are never taken for replies.
pub proof fn lemma_request_is_no_reply(source_mac: MacAddr, source_ip: u32, target_ip: u32)
    ensures
        spec_parse_arp_reply(arp_request_frame(source_mac, source_ip, target_ip)) is None,
{
    lemma_parse_built_frame(
        spec_broadcast_mac(),
        source_mac,
        OPERATION_REQUEST,
        source_mac,
        source_ip,
        spec_zero_mac(),
        target_ip,
    );
}

} // verus!
