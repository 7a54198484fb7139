use oathgate::arp::ArpPacket;
use oathgate::checksum::{checksum, ph_checksum};
use oathgate::error::ProtocolError;
use oathgate::frame::EthernetFrame;
use oathgate::ipv4::{Ipv4Header, Ipv4Packet};
use oathgate::types::{EtherType, MacAddress};

#[test]
fn checksum_rfc1071_example() {
    let data = [0x00u8, 0x01, 0xf2, 0x03, 0xf4, 0xf5, 0xf6, 0xf7];
    assert_eq!(checksum(&data), 0x220d);
}

#[test]
fn checksum_end_around_carry() {
    // 0xFFFF + 0xFFFF + 0x0001: the carries wrap around twice, one's-complement sum 0x0001
    assert_eq!(checksum(&[0xFF, 0xFF, 0xFF, 0xFF, 0x00, 0x01]), 0xFFFE);
    let mut data = vec![0xFFu8, 0xFF, 0x00, 0x00, 0xFF, 0xFF, 0x00, 0x01];
    let c = checksum(&data);
    data[2] = (c >> 8) as u8;
    data[3] = (c & 0xFF) as u8;
    assert_eq!(checksum(&data), 0);
}

#[test]
fn checksum_odd_length_pads_low_byte() {
    assert_eq!(checksum(&[0x12u8]), !0x1200u16);
    assert_eq!(checksum(&[]), 0xffff);
}

#[test]
fn checksum_of_filled_packet_is_zero() {
    let mut data = vec![0x45u8, 0x00, 0x00, 0x54, 0x12, 0x34, 0x40, 0x00, 0x40, 0x01, 0, 0, 10, 0, 0, 1, 10, 0, 0, 2];
    let c = checksum(&data);
    data[10] = (c >> 8) as u8;
    data[11] = (c & 0xff) as u8;
    assert_eq!(checksum(&data), 0);
}

#[test]
fn pseudo_header_checksum_udp() {
    // UDP datagram 10.0.0.1:1000 -> 10.0.0.2:2000, payload "hi", checksum field zeroed
    let seg = [0x03u8, 0xe8, 0x07, 0xd0, 0x00, 0x0a, 0x00, 0x00, b'h', b'i'];
    let c = ph_checksum([10, 0, 0, 1], [10, 0, 0, 2], 17, &seg);
    let mut sum: u32 = 0x0a00 + 0x0001 + 0x0a00 + 0x0002 + 17 + 10;
    for k in 0..5 {
        sum += ((seg[2 * k] as u32) << 8) | seg[2 * k + 1] as u32;
    }
    let folded = (sum & 0xffff) + (sum >> 16);
    assert_eq!(c, !(folded as u16));
}

#[test]
fn ethertype_codes_roundtrip() {
    for t in [EtherType::IPv4, EtherType::IPv6, EtherType::ARP] {
        let code = t.as_u16();
        assert_eq!(EtherType::try_from_u16(code).unwrap(), t);
    }
    assert_eq!(EtherType::IPv4.as_u16(), 0x0800);
    assert_eq!(EtherType::IPv6.as_u16(), 0x86dd);
    assert_eq!(EtherType::ARP.as_u16(), 0x0806);
}

#[test]
fn ethertype_unknown_and_short() {
    match EtherType::try_from_u16(0x1234) {
        Err(ProtocolError::MalformedPacket(msg)) => assert_eq!(msg, "unknown ethertype: 0x1234"),
        other => panic!("unexpected {:?}", other),
    }
    match EtherType::try_from_bytes(&[0x08]) {
        Err(ProtocolError::NotEnoughData(1, 2)) => (),
        other => panic!("unexpected {:?}", other),
    }
    assert_eq!(EtherType::try_from_bytes(&[0x08, 0x06, 0xff]).unwrap(), EtherType::ARP);
    assert_eq!(EtherType::ARP.debug_string(), "EtherType(0x0806)");
}

#[test]
fn mac_address_basics() {
    let mac = MacAddress::from_octets([0x52, 0x54, 0x00, 0xab, 0xcd, 0x0e]);
    assert_eq!(mac.to_string(), "52:54:00:ab:cd:0e");
    assert_eq!(mac.as_bytes(), &[0x52, 0x54, 0x00, 0xab, 0xcd, 0x0e]);
    assert!(!mac.is_broadcast());
    assert!(MacAddress::broadcast().is_broadcast());
    assert_eq!(MacAddress::broadcast().to_string(), "ff:ff:ff:ff:ff:ff");
    assert_eq!(mac.key(), 0x525400abcd0e);
}

#[test]
fn mac_parse_roundtrip_and_errors() {
    let mac = MacAddress::parse(&[1, 2, 3, 4, 5, 6, 7]).unwrap();
    assert_eq!(mac.as_bytes(), &[1, 2, 3, 4, 5, 6]);
    let again = MacAddress::parse(mac.as_bytes()).unwrap();
    assert_eq!(again.to_string(), mac.to_string());
    match MacAddress::parse(&[1, 2, 3]) {
        Err(ProtocolError::NotEnoughData(3, 6)) => (),
        other => panic!("unexpected {:?}", other),
    }
    let signed = MacAddress::try_from_i8(&[-1i8, 0, 1, 2, 3, 4, 9, 9]).unwrap();
    assert_eq!(signed.to_string(), "ff:00:01:02:03:04");
    match MacAddress::try_from_i8(&[1i8]) {
        Err(ProtocolError::NotEnoughData(1, 6)) => (),
        other => panic!("unexpected {:?}", other),
    }
}

#[test]
fn generated_mac_has_qemu_prefix() {
    let a = MacAddress::generate();
    let b = a.as_bytes();
    assert_eq!(&b[0..3], &[0x52, 0x54, 0x00]);
    assert!(a.to_string().starts_with("52:54:00:"));
}

#[test]
fn frame_roundtrip() {
    let src = MacAddress::from_octets([2, 0, 0, 0, 0, 1]);
    let dst = MacAddress::from_octets([2, 0, 0, 0, 0, 2]);
    let f = EthernetFrame::new(src, dst, EtherType::IPv4);
    let bytes = f.to_bytes();
    assert_eq!(bytes, vec![2, 0, 0, 0, 0, 2, 2, 0, 0, 0, 0, 1, 0x08, 0x00]);
    let back = EthernetFrame::parse(&bytes).unwrap();
    assert_eq!(back.src.as_bytes(), src.as_bytes());
    assert_eq!(back.dst.as_bytes(), dst.as_bytes());
    assert_eq!(back.ethertype, EtherType::IPv4);
    assert_eq!(EthernetFrame::size(), 14);
}

#[test]
fn frame_extract_splits_payload() {
    let mut pkt = vec![0xffu8, 0xff, 0xff, 0xff, 0xff, 0xff, 1, 2, 3, 4, 5, 6, 0x08, 0x06, 9, 8, 7];
    let f = EthernetFrame::extract(&mut pkt).unwrap();
    assert!(f.dst.is_broadcast());
    assert_eq!(f.ethertype, EtherType::ARP);
    assert_eq!(pkt, vec![9, 8, 7]);
    let mut short = vec![1u8, 2, 3];
    match EthernetFrame::extract(&mut short) {
        Err(ProtocolError::NotEnoughData(3, 14)) => (),
        other => panic!("unexpected {:?}", other),
    }
}

fn sample_ipv4() -> Vec<u8> {
    let mut data = vec![
        0x45, 0x00, 0x00, 0x1c, 0xbe, 0xef, 0x40, 0x00, 0x40, 0x01, 0x00, 0x00, 10, 0, 0, 5, 10, 0, 0, 1,
        0x08, 0x00, 0xf7, 0xff, 0x00, 0x00, 0x00, 0x00,
    ];
    let c = checksum(&data[0..20]);
    data[10] = (c >> 8) as u8;
    data[11] = c as u8;
    data
}

#[test]
fn ipv4_header_parse_and_write() {
    let data = sample_ipv4();
    let h = Ipv4Header::extract_from_slice(&data).unwrap();
    assert_eq!(h.version, 4);
    assert_eq!(h.ihl, 5);
    assert_eq!(h.length, 28);
    assert_eq!(h.id, 0xbeef);
    assert_eq!(h.flags, 2);
    assert_eq!(h.ttl, 64);
    assert_eq!(h.protocol, 1);
    assert_eq!(h.src, 0x0a000005);
    assert_eq!(h.dst, 0x0a000001);
    assert_eq!(h.header_length(), 20);
    let mut out = [0u8; 20];
    h.as_bytes(&mut out);
    assert_eq!(&out[..], &data[0..20]);
    assert_eq!(h.into_bytes(), out);
}

#[test]
fn ipv4_header_errors() {
    match Ipv4Header::extract_from_slice(&[]) {
        Err(ProtocolError::NotEnoughData(0, 20)) => (),
        other => panic!("unexpected {:?}", other),
    }
    match Ipv4Header::extract_from_slice(&[0x46, 0, 0, 0]) {
        Err(ProtocolError::NotEnoughData(4, 24)) => (),
        other => panic!("unexpected {:?}", other),
    }
    // a buffer holding the small header it announces is still too short for a basic header
    match Ipv4Header::extract_from_slice(&[0x41, 0, 0, 0]) {
        Err(ProtocolError::NotEnoughData(4, 20)) => (),
        other => panic!("unexpected {:?}", other),
    }
    let mut short = vec![0x45u8; 10];
    match Ipv4Header::extract(&mut short) {
        Err(ProtocolError::NotEnoughData(10, 20)) => (),
        other => panic!("unexpected {:?}", other),
    }
}

#[test]
fn ipv4_header_new_and_reply() {
    let h = Ipv4Header::new(1, 2, 17, 100);
    assert_eq!((h.version, h.ihl, h.length, h.flags, h.ttl, h.protocol, h.checksum), (4, 5, 120, 2, 64, 17, 0));
    assert_eq!((h.src, h.dst), (1, 2));
    let r = h.gen_reply(&[0u8; 8]);
    assert_eq!((r.src, r.dst, r.length, r.protocol), (2, 1, 28, 17));
    let mut m = h;
    assert_eq!(m.masquerade(9), 1);
    assert_eq!(m.src, 9);
    assert_eq!(m.unmasquerade(7), 2);
    assert_eq!(m.dst, 7);
}

#[test]
fn ipv4_packet_payload_and_masquerade() {
    let data = sample_ipv4();
    let mut p = Ipv4Packet::parse(data.clone()).unwrap();
    assert_eq!(p.protocol(), 1);
    assert_eq!(p.src(), 0x0a000005);
    assert_eq!(p.dest(), 0x0a000001);
    assert_eq!(p.payload(), &data[20..]);
    p.payload_mut()[4] = 0x12;
    assert_eq!(p.payload()[4], 0x12);
    assert_eq!(&p.as_bytes()[0..20], &data[0..20]);
    p.masquerade(0xc0a80101);
    assert_eq!(p.src(), 0xc0a80101);
    assert_eq!(&p.as_bytes()[12..16], &[192, 168, 1, 1]);
    assert_eq!(checksum(&p.as_bytes()[0..20]), 0);
    p.unmasquerade(0xc0a80102);
    assert_eq!(&p.as_bytes()[16..20], &[192, 168, 1, 2]);
    assert_eq!(checksum(&p.as_bytes()[0..20]), 0);
    let reply = p.reply(&[0u8; 8]);
    assert_eq!((reply.src, reply.dst), (0xc0a80102, 0xc0a80101));
    assert_eq!(p.into_bytes().len(), 28);
}

#[test]
fn udp_masquerade_fixes_transport_checksum() {
    let mut data = vec![
        0x45u8, 0x00, 0x00, 0x1e, 0x00, 0x01, 0x40, 0x00, 0x40, 0x11, 0x00, 0x00, 10, 0, 0, 5, 10, 0, 0, 1,
        0x03, 0xe8, 0x07, 0xd0, 0x00, 0x0a, 0x00, 0x00, b'h', b'i',
    ];
    let c = checksum(&data[0..20]);
    data[10] = (c >> 8) as u8;
    data[11] = c as u8;
    let mut p = Ipv4Packet::parse(data).unwrap();
    p.masquerade(0x0a000009);
    let bytes = p.as_bytes().to_vec();
    let mut seg = bytes[20..].to_vec();
    let stored = ((seg[6] as u16) << 8) | seg[7] as u16;
    seg[6] = 0;
    seg[7] = 0;
    assert_eq!(stored, ph_checksum([10, 0, 0, 9], [10, 0, 0, 1], 17, &seg));
}

#[test]
fn arp_parse_reply_roundtrip() {
    let req = [
        0x00u8, 0x01, 0x08, 0x00, 6, 4, 0x00, 0x01, 2, 0, 0, 0, 0, 7, 10, 0, 0, 7, 0, 0, 0, 0, 0, 0, 10, 0, 0,
        1,
    ];
    let mut arp = ArpPacket::parse(&req).unwrap();
    assert_eq!(arp.op, 1);
    assert_eq!(arp.spa, 0x0a000007);
    assert_eq!(arp.tpa, 0x0a000001);
    assert_eq!(arp.size(), 28);
    let mine = MacAddress::from_octets([0x52, 0x54, 0, 1, 2, 3]);
    arp.to_reply(mine);
    assert_eq!(arp.op, 2);
    assert_eq!(arp.spa, 0x0a000001);
    assert_eq!(arp.tpa, 0x0a000007);
    assert_eq!(arp.tha.as_bytes(), &[2, 0, 0, 0, 0, 7]);
    let mut out = [0u8; 28];
    arp.as_bytes(&mut out);
    assert_eq!(&out[0..8], &[0, 1, 8, 0, 6, 4, 0, 2]);
    assert_eq!(&out[8..14], mine.as_bytes());
    let back = ArpPacket::parse(&out).unwrap();
    assert_eq!(back.op, 2);
    assert_eq!(back.spa, 0x0a000001);
    match ArpPacket::parse(&req[0..10]) {
        Err(ProtocolError::NotEnoughData(10, 28)) => (),
        other => panic!("unexpected {:?}", other),
    }
}

#[test]
fn checksum_fill_keeps_carry_when_halves_overflow() {
    // the word sum is 0x1ffff: its halves add up past 16 bits, and the carry wraps around
    let mut data = vec![0xffu8, 0xff, 0x00, 0x01, 0x00, 0x00, 0xff, 0xff];
    let c = checksum(&data);
    assert_eq!(c, 0xfffe);
    data[4] = (c >> 8) as u8;
    data[5] = c as u8;
    assert_eq!(checksum(&data), 0);
}

#[test]
fn written_header_checks_to_zero() {
    let h = Ipv4Header::new(0x0a000001, 0x0a000002, 6, 40);
    let mut out = [0u8; 20];
    h.as_bytes(&mut out);
    assert_eq!(checksum(&out), 0);
}

#[test]
fn pseudo_header_checksum_is_checksum_of_pseudo_header_and_segment() {
    let seg = vec![0x03u8, 0xe8, 0x07, 0xd0, 0x00, 0x0a, 0x00, 0x00, b'h', b'i', 0xff];
    let mut whole = vec![10u8, 0, 0, 1, 10, 0, 0, 2, 0, 17, 0, seg.len() as u8];
    whole.extend_from_slice(&seg);
    assert_eq!(ph_checksum([10, 0, 0, 1], [10, 0, 0, 2], 17, &seg), checksum(&whole));
}
