use host_discovery::scanner::frame::{build_arp_frame, create_arp_request, parse_arp_reply};
use host_discovery::scanner::frame::{broadcast_mac, zero_mac, ArpReply};
use host_discovery::{ipv4, MacAddr};
use pnet::packet::arp::{ArpHardwareTypes, ArpOperations, ArpPacket, MutableArpPacket};
use pnet::packet::ethernet::{EtherTypes, EthernetPacket, MutableEthernetPacket};
use pnet::packet::Packet;

const OUR_MAC: MacAddr = MacAddr(0x02, 0x42, 0xac, 0x11, 0x00, 0x02);
const THEIR_MAC: MacAddr = MacAddr(0xde, 0xad, 0xbe, 0xef, 0x00, 0x0c);

fn to_pnet(mac: MacAddr) -> pnet::util::MacAddr {
    pnet::util::MacAddr(mac.0, mac.1, mac.2, mac.3, mac.4, mac.5)
}

fn pnet_frame(
    destination: MacAddr,
    source: MacAddr,
    reply: bool,
    sender_mac: MacAddr,
    sender_ip: u32,
    target_mac: MacAddr,
    target_ip: u32,
) -> Vec<u8> {
    let mut buffer = vec![0u8; 42];
    {
        let mut ethernet = MutableEthernetPacket::new(&mut buffer[..14]).unwrap();
        ethernet.set_destination(to_pnet(destination));
        ethernet.set_source(to_pnet(source));
        ethernet.set_ethertype(EtherTypes::Arp);
    }
    {
        let mut arp = MutableArpPacket::new(&mut buffer[14..42]).unwrap();
        arp.set_hardware_type(ArpHardwareTypes::Ethernet);
        arp.set_protocol_type(EtherTypes::Ipv4);
        arp.set_hw_addr_len(6);
        arp.set_proto_addr_len(4);
        arp.set_operation(if reply { ArpOperations::Reply } else { ArpOperations::Request });
        arp.set_sender_hw_addr(to_pnet(sender_mac));
        arp.set_sender_proto_addr(sender_ip.into());
        arp.set_target_hw_addr(to_pnet(target_mac));
        arp.set_target_proto_addr(target_ip.into());
    }
    buffer
}

#[test]
fn request_frame_bytes() {
    let frame = create_arp_request(OUR_MAC, ipv4(192, 168, 1, 10), ipv4(192, 168, 1, 12));
    let expected: Vec<u8> = vec![
        0xff, 0xff, 0xff, 0xff, 0xff, 0xff, // destination: broadcast
        0x02, 0x42, 0xac, 0x11, 0x00, 0x02, // source
        0x08, 0x06, // EtherType: address resolution
        0x00, 0x01, // hardware type: Ethernet
        0x08, 0x00, // protocol type: IPv4
        0x06, 0x04, // address lengths
        0x00, 0x01, // operation: request
        0x02, 0x42, 0xac, 0x11, 0x00, 0x02, // sender hardware address
        192, 168, 1, 10, // sender protocol address
        0x00, 0x00, 0x00, 0x00, 0x00, 0x00, // target hardware address
        192, 168, 1, 12, // target protocol address
    ];
    assert_eq!(frame, expected);
    assert_eq!(frame.len(), 42);
}

#[test]
fn request_frame_agrees_with_packet_crate() {
    let pairs = [
        (ipv4(192, 168, 1, 10), ipv4(192, 168, 1, 12)),
        (ipv4(10, 0, 0, 1), ipv4(10, 255, 255, 254)),
        (ipv4(1, 2, 3, 4), ipv4(255, 254, 253, 252)),
        (0, u32::MAX),
    ];
    for (source_ip, target_ip) in pairs {
        let ours = create_arp_request(OUR_MAC, source_ip, target_ip);
        let theirs =
            pnet_frame(broadcast_mac(), OUR_MAC, false, OUR_MAC, source_ip, zero_mac(), target_ip);
        assert_eq!(ours, theirs);
    }
}

#[test]
fn request_frame_reads_back_in_packet_crate() {
    let frame = create_arp_request(OUR_MAC, ipv4(192, 168, 1, 10), ipv4(192, 168, 1, 12));
    let ethernet = EthernetPacket::new(&frame).unwrap();
    assert_eq!(ethernet.get_destination(), pnet::util::MacAddr::broadcast());
    assert_eq!(ethernet.get_source(), to_pnet(OUR_MAC));
    assert_eq!(ethernet.get_ethertype(), EtherTypes::Arp);
    let arp = ArpPacket::new(ethernet.payload()).unwrap();
    assert_eq!(arp.get_hardware_type(), ArpHardwareTypes::Ethernet);
    assert_eq!(arp.get_protocol_type(), EtherTypes::Ipv4);
    assert_eq!(arp.get_hw_addr_len(), 6);
    assert_eq!(arp.get_proto_addr_len(), 4);
    assert_eq!(arp.get_operation(), ArpOperations::Request);
    assert_eq!(arp.get_sender_hw_addr(), to_pnet(OUR_MAC));
    assert_eq!(u32::from(arp.get_sender_proto_addr()), ipv4(192, 168, 1, 10));
    assert_eq!(arp.get_target_hw_addr(), pnet::util::MacAddr::zero());
    assert_eq!(u32::from(arp.get_target_proto_addr()), ipv4(192, 168, 1, 12));
}

#[test]
fn reply_from_packet_crate_is_read() {
    let frame = pnet_frame(
        OUR_MAC,
        THEIR_MAC,
        true,
        THEIR_MAC,
        ipv4(192, 168, 1, 12),
        OUR_MAC,
        ipv4(192, 168, 1, 10),
    );
    assert_eq!(
        parse_arp_reply(&frame),
        Some(ArpReply { sender_ip: ipv4(192, 168, 1, 12), sender_mac: THEIR_MAC })
    );
}

#[test]
fn built_reply_is_read_back() {
    let frame = build_arp_frame(
        OUR_MAC,
        THEIR_MAC,
        2,
        THEIR_MAC,
        ipv4(172, 16, 254, 1),
        OUR_MAC,
        ipv4(172, 16, 0, 9),
    );
    assert_eq!(
        frame,
        pnet_frame(
            OUR_MAC,
            THEIR_MAC,
            true,
            THEIR_MAC,
            ipv4(172, 16, 254, 1),
            OUR_MAC,
            ipv4(172, 16, 0, 9)
        )
    );
    assert_eq!(
        parse_arp_reply(&frame),
        Some(ArpReply { sender_ip: ipv4(172, 16, 254, 1), sender_mac: THEIR_MAC })
    );
}

#[test]
fn request_is_not_read_as_reply() {
    let frame = create_arp_request(OUR_MAC, ipv4(192, 168, 1, 10), ipv4(192, 168, 1, 12));
    assert_eq!(parse_arp_reply(&frame), None);
}

#[test]
fn short_frames_are_not_replies() {
    let frame = pnet_frame(OUR_MAC, THEIR_MAC, true, THEIR_MAC, 1, OUR_MAC, 2);
    assert!(parse_arp_reply(&frame).is_some());
    for len in 0..42 {
        assert_eq!(parse_arp_reply(&frame[..len]), None);
    }
    assert_eq!(parse_arp_reply(&[]), None);
}

#[test]
fn longer_frames_are_read_by_their_start() {
    let mut frame = pnet_frame(OUR_MAC, THEIR_MAC, true, THEIR_MAC, 7, OUR_MAC, 2);
    frame.extend_from_slice(&[0u8; 18]);
    assert_eq!(parse_arp_reply(&frame), Some(ArpReply { sender_ip: 7, sender_mac: THEIR_MAC }));
}

#[test]
fn other_ethertypes_are_not_replies() {
    let mut frame = pnet_frame(OUR_MAC, THEIR_MAC, true, THEIR_MAC, 7, OUR_MAC, 2);
    frame[12] = 0x08;
    frame[13] = 0x00;
    assert_eq!(parse_arp_reply(&frame), None);
    frame[12] = 0x86;
    frame[13] = 0x06;
    assert_eq!(parse_arp_reply(&frame), None);
}

#[test]
fn other_operations_are_not_replies() {
    let mut frame = pnet_frame(OUR_MAC, THEIR_MAC, true, THEIR_MAC, 7, OUR_MAC, 2);
    frame[21] = 3;
    assert_eq!(parse_arp_reply(&frame), None);
    frame[20] = 2;
    frame[21] = 2;
    assert_eq!(parse_arp_reply(&frame), None);
}

fn read_with_packet_crate(frame: &[u8]) -> Option<ArpReply> {
    let ethernet = EthernetPacket::new(frame)?;
    if ethernet.get_ethertype() != EtherTypes::Arp {
        return None;
    }
    let arp = ArpPacket::new(ethernet.payload())?;
    if arp.get_operation() != ArpOperations::Reply {
        return None;
    }
    let mac = arp.get_sender_hw_addr();
    Some(ArpReply {
        sender_ip: arp.get_sender_proto_addr().into(),
        sender_mac: MacAddr(mac.0, mac.1, mac.2, mac.3, mac.4, mac.5),
    })
}

#[test]
fn reading_agrees_with_packet_crate_on_many_frames() {
    let mut state: u64 = 0x9E37_79B9_7F4A_7C15;
    let mut next = move || {
        state ^= state << 13;
        state ^= state >> 7;
        state ^= state << 17;
        state
    };
    let mut replies = 0;
    for round in 0..4000 {
        let len = (next() % 80) as usize;
        let mut frame: Vec<u8> = (0..len).map(|_| next() as u8).collect();
        if round % 2 == 0 && len >= 14 {
            frame[12] = 0x08;
            frame[13] = 0x06;
        }
        if round % 3 != 0 && len >= 22 {
            frame[20] = 0x00;
            frame[21] = if round % 5 == 0 { 0x01 } else { 0x02 };
        }
        let ours = parse_arp_reply(&frame);
        assert_eq!(ours, read_with_packet_crate(&frame));
        if ours.is_some() {
            replies += 1;
        }
    }
    assert!(replies > 100);
}
