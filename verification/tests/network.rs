use std::cell::RefCell;
use std::rc::Rc;

use oathgate::arp::ArpPacket;
use oathgate::bridge::BridgeBuilder;
use oathgate::config::{BridgeConfig, BridgeRouterConfig, TapConfig, WanConfig};
use oathgate::checksum::checksum;
use oathgate::dhcp::{DhcpConfig, DhcpServer};
use oathgate::error::ProtocolError;
use oathgate::fabrial::{
    data_message, read_message, resize_message, socket_action, ClientMessage, FramingError, SocketAction,
};
use oathgate::frame::{EthernetFrame, EthernetPacket};
use oathgate::handler::{ProtocolHandler, UdpHandler};
use oathgate::ipv4::Ipv4Packet;
use oathgate::local::{LocalAction, LocalDevice, PacketBuffer};
use oathgate::netaddress::{IpAddress, NetworkAddress};
use oathgate::router::{Forward, Router, RouterMsg};
use oathgate::switch::{Delivery, PcapLogger, SwitchPort, VirtioSwitch};
use oathgate::types::{EtherType, MacAddress};

#[derive(Clone, Default)]
struct Recorder {
    got: Rc<RefCell<Vec<(EtherType, Vec<u8>)>>>,
}

impl SwitchPort for Recorder {
    fn enqueue(&self, frame: EthernetFrame, pkt: Vec<u8>) {
        self.got.borrow_mut().push((frame.ethertype, pkt));
    }
}

fn frame(dst: [u8; 6], src: [u8; 6], et: u16, payload: &[u8]) -> Vec<u8> {
    let mut v = Vec::new();
    v.extend_from_slice(&dst);
    v.extend_from_slice(&src);
    v.extend_from_slice(&et.to_be_bytes());
    v.extend_from_slice(payload);
    v
}

const A: [u8; 6] = [2, 0, 0, 0, 0, 0xa];
const B: [u8; 6] = [2, 0, 0, 0, 0, 0xb];

#[test]
fn switch_floods_then_learns() {
    let mut sw = VirtioSwitch::new(PcapLogger::disabled());
    let ports: Vec<Recorder> = (0..3).map(|_| Recorder::default()).collect();
    for p in &ports {
        sw.connect(p.clone());
    }
    // B is unknown: the frame from A on port 0 floods to ports 1 and 2
    sw.process(0, frame(B, A, 0x0800, &[1, 2, 3])).unwrap();
    assert_eq!(ports[0].got.borrow().len(), 0);
    assert_eq!(ports[1].got.borrow().len(), 1);
    assert_eq!(ports[2].got.borrow().len(), 1);
    assert_eq!(ports[1].got.borrow()[0], (EtherType::IPv4, vec![1, 2, 3]));
    assert_eq!(sw.get_port(MacAddress::from_octets(A)), Some(0));
    // the answer from B on port 1 goes to port 0 only
    sw.process(1, frame(A, B, 0x0800, &[4])).unwrap();
    assert_eq!(ports[0].got.borrow().len(), 1);
    assert_eq!(ports[2].got.borrow().len(), 1);
    assert_eq!(sw.get_port(MacAddress::from_octets(B)), Some(1));
    // broadcasts flood everywhere but the origin
    sw.process(2, frame([0xff; 6], [2, 0, 0, 0, 0, 0xc], 0x0806, &[9])).unwrap();
    assert_eq!(ports[0].got.borrow().len(), 2);
    assert_eq!(ports[1].got.borrow().len(), 2);
    assert_eq!(ports[2].got.borrow().len(), 1);
}

#[test]
fn switch_route_and_errors() {
    let mut sw: VirtioSwitch<Recorder> = VirtioSwitch::new(PcapLogger::disabled());
    let f = EthernetFrame::new(MacAddress::from_octets(A), MacAddress::from_octets(B), EtherType::IPv4);
    assert_eq!(sw.route(3, &f), Delivery::Flood { except: 3 });
    let back = EthernetFrame::new(MacAddress::from_octets(B), MacAddress::from_octets(A), EtherType::IPv4);
    // A was learned on port 3, which has no device
    assert_eq!(sw.route(1, &back), Delivery::Discard);
    match sw.process(0, vec![1, 2, 3]) {
        Err(ProtocolError::NotEnoughData(3, 14)) => (),
        other => panic!("unexpected {:?}", other),
    }
    match sw.process(0, frame(B, A, 0x1234, &[])) {
        Err(ProtocolError::MalformedPacket(_)) => (),
        other => panic!("unexpected {:?}", other),
    }
}

#[test]
fn pcap_logger_receives_copies() {
    let (tx, rx) = flume::unbounded();
    let mut sw: VirtioSwitch<Recorder> = VirtioSwitch::new(PcapLogger::with_sender(tx));
    let pkt = frame(B, A, 0x0800, &[5, 6]);
    sw.process(0, pkt.clone()).unwrap();
    assert_eq!(rx.try_recv().unwrap(), pkt);
}

fn arp_request(sender_mac: [u8; 6], sender_ip: [u8; 4], target_ip: [u8; 4]) -> Vec<u8> {
    let mut v = vec![0x00, 0x01, 0x08, 0x00, 6, 4, 0x00, 0x01];
    v.extend_from_slice(&sender_mac);
    v.extend_from_slice(&sender_ip);
    v.extend_from_slice(&[0; 6]);
    v.extend_from_slice(&target_ip);
    v
}

fn ipv4(src: [u8; 4], dst: [u8; 4], proto: u8, payload: &[u8]) -> Vec<u8> {
    let len = (20 + payload.len()) as u16;
    let mut v = vec![0x45, 0, (len >> 8) as u8, len as u8, 0, 1, 0x40, 0, 64, proto, 0, 0];
    v.extend_from_slice(&src);
    v.extend_from_slice(&dst);
    let c = checksum(&v);
    v[10] = (c >> 8) as u8;
    v[11] = c as u8;
    v.extend_from_slice(payload);
    v
}

fn router() -> Router<UdpHandler<DhcpServer>> {
    let mut udp = UdpHandler::new();
    let net = NetworkAddress::new_v4([10, 0, 0, 1], 24);
    udp.register_port_handler(DhcpServer::new(
        net,
        DhcpConfig { start: u32::from_be_bytes([10, 0, 0, 100]), end: u32::from_be_bytes([10, 0, 0, 150]) },
    ));
    Router::builder().register_proto_handler(udp).build(u32::from_be_bytes([10, 0, 0, 1]), 4)
}

#[test]
fn router_answers_arp_and_learns() {
    let mut r = router();
    assert_eq!(r.port(), 4);
    let req = arp_request(A, [10, 0, 0, 7], [10, 0, 0, 1]);
    let out = r.route(EtherType::ARP, req).unwrap();
    let f = match out {
        Some(Forward::Switch(f)) => f,
        other => panic!("unexpected {:?}", other),
    };
    assert_eq!(&f[0..6], &A);
    assert_eq!(&f[12..14], &[0x08, 0x06]);
    let reply = ArpPacket::parse(&f[14..]).unwrap();
    assert_eq!(reply.op, 2);
    assert_eq!(reply.spa, u32::from_be_bytes([10, 0, 0, 1]));
    assert_eq!(reply.tpa, u32::from_be_bytes([10, 0, 0, 7]));
    assert_eq!(reply.sha.as_bytes(), &f[6..12]);
    assert_eq!(&f[6..9], &[0x52, 0x54, 0x00]);
    // the sender is learned: IPv4 traffic for it now leaves in a frame to A
    let pkt = ipv4([10, 0, 0, 9], [10, 0, 0, 7], 6, &[1, 2, 3, 4]);
    match r.route(EtherType::IPv4, pkt.clone()).unwrap() {
        Some(Forward::Switch(f)) => {
            assert_eq!(&f[0..6], &A);
            assert_eq!(&f[12..14], &[0x08, 0x00]);
            assert_eq!(&f[14..], &pkt[..]);
        }
        other => panic!("unexpected {:?}", other),
    }
}

#[test]
fn router_arp_for_others_is_learned_not_answered() {
    let mut r = router();
    assert!(matches!(r.route(EtherType::ARP, arp_request(B, [10, 0, 0, 8], [10, 0, 0, 9])), Ok(None)));
    let pkt = ipv4([10, 0, 0, 9], [10, 0, 0, 8], 6, &[]);
    match r.route(EtherType::IPv4, pkt).unwrap() {
        Some(Forward::Switch(f)) => assert_eq!(&f[0..6], &B),
        other => panic!("unexpected {:?}", other),
    }
    match r.route(EtherType::ARP, vec![0; 10]) {
        Err(ProtocolError::NotEnoughData(10, 28)) => (),
        other => panic!("unexpected {:?}", other),
    }
}

#[test]
fn router_forwards_outside_traffic_upstream() {
    let mut r = router();
    let pkt = ipv4([10, 0, 0, 9], [8, 8, 8, 8], 6, &[1]);
    match r.route(EtherType::IPv4, pkt.clone()).unwrap() {
        Some(Forward::Wan(p)) => assert_eq!(p.as_bytes(), &pkt[..]),
        other => panic!("unexpected {:?}", other),
    }
    // unknown local destination: dropped
    assert!(matches!(r.route(EtherType::IPv4, ipv4([10, 0, 0, 9], [10, 0, 0, 33], 6, &[])), Ok(None)));
    assert!(matches!(r.route(EtherType::IPv6, vec![0x60, 0, 0, 0]), Ok(None)));
    match r.route(EtherType::IPv4, vec![]) {
        Err(ProtocolError::NotEnoughData(0, 20)) => (),
        other => panic!("unexpected {:?}", other),
    }
}

#[test]
fn router_serves_dhcp_through_udp_handler() {
    let mut r = router();
    r.route(EtherType::ARP, arp_request(A, [10, 0, 0, 7], [10, 0, 0, 9])).unwrap();
    let mut dhcp = vec![0u8; 240];
    dhcp[0] = 1;
    dhcp[1] = 1;
    dhcp[2] = 6;
    dhcp[28..34].copy_from_slice(&A);
    dhcp[236..240].copy_from_slice(&[99, 130, 83, 99]);
    dhcp.extend_from_slice(&[53, 1, 1, 255]);
    let mut udp = vec![0, 68, 0, 67, 0, 0, 0, 0];
    let l = (8 + dhcp.len()) as u16;
    udp[4] = (l >> 8) as u8;
    udp[5] = l as u8;
    udp.extend_from_slice(&dhcp);
    let pkt = ipv4([10, 0, 0, 7], [10, 0, 0, 1], 17, &udp);
    let msg = RouterMsg::Lan(EthernetPacket::new(
        EthernetFrame::new(MacAddress::from_octets(A), MacAddress::broadcast(), EtherType::IPv4),
        pkt,
    ));
    match r.handle_message(msg).unwrap() {
        Some(Forward::Switch(f)) => {
            assert_eq!(&f[0..6], &A);
            let ip = &f[14..];
            assert_eq!(ip[9], 17);
            assert_eq!(&ip[12..16], &[10, 0, 0, 1]);
            assert_eq!(&ip[16..20], &[10, 0, 0, 7]);
            assert_eq!(checksum(&ip[0..20]), 0);
            let udp = &ip[20..];
            assert_eq!(&udp[0..4], &[0, 67, 0, 68]);
            assert_eq!(udp[8], 2);
            assert_eq!(&udp[8 + 16..8 + 20], &[10, 0, 0, 100]);
        }
        other => panic!("unexpected {:?}", other),
    }
}

#[test]
fn bridge_router_serves_dhcp_on_its_network() {
    let cfg = BridgeConfig {
        wan: WanConfig::Tap(TapConfig { device: String::from("oathgate0") }),
        router: BridgeRouterConfig {
            ipv4: NetworkAddress::new_v4([10, 0, 0, 1], 24),
            dhcp: DhcpConfig { start: u32::from_be_bytes([10, 0, 0, 120]), end: u32::from_be_bytes([10, 0, 0, 130]) },
        },
    };
    let bridge = BridgeBuilder::new().build(cfg, "lab").unwrap();
    let mut r = bridge.router(4);
    r.route(EtherType::ARP, arp_request(A, [10, 0, 0, 7], [10, 0, 0, 9])).unwrap();
    let mut dhcp = vec![0u8; 240];
    dhcp[0] = 1;
    dhcp[1] = 1;
    dhcp[2] = 6;
    dhcp[28..34].copy_from_slice(&A);
    dhcp[236..240].copy_from_slice(&[99, 130, 83, 99]);
    dhcp.extend_from_slice(&[53, 1, 1, 255]);
    let mut udp = vec![0, 68, 0, 67, 0, 0, 0, 0];
    let l = (8 + dhcp.len()) as u16;
    udp[4] = (l >> 8) as u8;
    udp[5] = l as u8;
    udp.extend_from_slice(&dhcp);
    let pkt = ipv4([10, 0, 0, 7], [10, 0, 0, 1], 17, &udp);
    let msg = RouterMsg::Lan(EthernetPacket::new(
        EthernetFrame::new(MacAddress::from_octets(A), MacAddress::broadcast(), EtherType::IPv4),
        pkt,
    ));
    match r.handle_message(msg).unwrap() {
        Some(Forward::Switch(f)) => {
            let udp = &f[14 + 20..];
            assert_eq!(&udp[0..4], &[0, 67, 0, 68]);
            assert_eq!(udp[8], 2);
            assert_eq!(&udp[8 + 16..8 + 20], &[10, 0, 0, 120]);
        }
        other => panic!("unexpected {:?}", other),
    }
}

#[test]
fn bridge_router_answers_ping_to_gateway() {
    let cfg = BridgeConfig {
        wan: WanConfig::Tap(TapConfig { device: String::from("oathgate0") }),
        router: BridgeRouterConfig {
            ipv4: NetworkAddress::new_v4([10, 0, 0, 1], 24),
            dhcp: DhcpConfig { start: u32::from_be_bytes([10, 0, 0, 120]), end: u32::from_be_bytes([10, 0, 0, 130]) },
        },
    };
    let bridge = BridgeBuilder::new().build(cfg, "lab").unwrap();
    let mut r = bridge.router(4);
    r.route(EtherType::ARP, arp_request(A, [10, 0, 0, 7], [10, 0, 0, 9])).unwrap();
    let mut echo = vec![8u8, 0, 0, 0, 0x12, 0x34, 0, 1, b'h', b'i'];
    let c = checksum(&echo);
    echo[2] = (c >> 8) as u8;
    echo[3] = c as u8;
    let pkt = ipv4([10, 0, 0, 7], [10, 0, 0, 1], 1, &echo);
    match r.route(EtherType::IPv4, pkt).unwrap() {
        Some(Forward::Switch(f)) => {
            assert_eq!(&f[0..6], &A);
            let ip = &f[14..];
            assert_eq!(ip[9], 1);
            assert_eq!(&ip[12..16], &[10, 0, 0, 1]);
            assert_eq!(&ip[16..20], &[10, 0, 0, 7]);
            let reply = &ip[20..];
            assert_eq!(reply.len(), echo.len());
            assert_eq!(&reply[0..2], &[0, 0]);
            assert_eq!(&reply[4..], &echo[4..]);
            assert_eq!(checksum(reply), 0);
        }
        other => panic!("unexpected {:?}", other),
    }
    // a cut-short echo request gets no answer
    let pkt = ipv4([10, 0, 0, 7], [10, 0, 0, 1], 1, &[8, 0]);
    assert!(matches!(r.route(EtherType::IPv4, pkt), Ok(None)));
}

#[test]
fn udp_handler_dispatch() {
    let mut udp: UdpHandler<DhcpServer> = UdpHandler::new();
    assert_eq!(udp.protocol(), 17);
    let pkt = Ipv4Packet::parse(ipv4([1, 1, 1, 1], [2, 2, 2, 2], 17, &[0, 1, 0, 99, 0, 8, 0, 0])).unwrap();
    let mut buf = vec![0u8; 1540];
    assert!(matches!(udp.handle_protocol(&pkt, &mut buf), Ok(0)));
    let short = Ipv4Packet::parse(ipv4([1, 1, 1, 1], [2, 2, 2, 2], 17, &[0, 1])).unwrap();
    match udp.handle_protocol(&short, &mut buf) {
        Err(ProtocolError::NotEnoughData(2, 8)) => (),
        other => panic!("unexpected {:?}", other),
    }
}

#[test]
fn local_device_echo_and_arp() {
    let mut dev = LocalDevice::new(u32::from_be_bytes([10, 0, 0, 1]));
    assert!(dev.can_handle(IpAddress::V4(u32::from_be_bytes([10, 0, 0, 1]))));
    assert!(!dev.can_handle(IpAddress::V4(u32::from_be_bytes([10, 0, 0, 2]))));
    assert!(!dev.can_handle(IpAddress::V6(1)));
    let mut echo = vec![8u8, 0, 0, 0, 0x12, 0x34, 0, 1, b'p', b'i', b'n', b'g'];
    let c = checksum(&echo);
    echo[2] = (c >> 8) as u8;
    echo[3] = c as u8;
    let req = Ipv4Packet::parse(ipv4([10, 0, 0, 7], [10, 0, 0, 1], 1, &echo)).unwrap();
    match dev.handle_ip4_packet(req.header(), echo.clone()) {
        LocalAction::Respond(dst, pkt) => {
            assert_eq!(dst, u32::from_be_bytes([10, 0, 0, 7]));
            assert_eq!(pkt.len(), 20 + echo.len());
            assert_eq!(&pkt[12..16], &[10, 0, 0, 1]);
            assert_eq!(&pkt[16..20], &[10, 0, 0, 7]);
            assert_eq!(checksum(&pkt[0..20]), 0);
            assert_eq!(pkt[20], 0);
            assert_eq!(&pkt[24..], &echo[4..]);
            assert_eq!(checksum(&pkt[20..]), 0);
        }
        other => panic!("unexpected {:?}", other),
    }
    let tcp = Ipv4Packet::parse(ipv4([10, 0, 0, 7], [10, 0, 0, 1], 6, &[1, 2])).unwrap();
    match dev.handle_ip4_packet(tcp.header(), vec![1, 2]) {
        LocalAction::Drop(p) => assert_eq!(p, vec![1, 2]),
        other => panic!("unexpected {:?}", other),
    }
    let arp = ArpPacket::parse(&arp_request(A, [10, 0, 0, 7], [10, 0, 0, 1])).unwrap();
    let reply = dev.handle_arp_request(arp);
    assert_eq!(reply.len(), 42);
    assert_eq!(&reply[0..6], &A);
    assert_eq!(&reply[12..14], &[0x08, 0x06]);
    let back = ArpPacket::parse(&reply[14..]).unwrap();
    assert_eq!(back.op, 2);
    assert_eq!(back.tha.as_bytes(), &A);
    assert_eq!(&reply[6..12], back.sha.as_bytes());
}

#[test]
fn packet_buffer_layers() {
    let mut b = PacketBuffer::new();
    assert_eq!(b.l2().len(), 14);
    assert_eq!(b.l3().len(), 1560 - 14);
    b.l3()[0] = 0x45;
    b.l2()[13] = 0x08;
    assert_eq!(b.l3()[0], 0x45);
    assert_eq!(b.l2()[13], 0x08);
}

#[test]
fn fabrial_message_framing() {
    let msg = data_message(b"ls\n");
    assert_eq!(msg, vec![1, 3, 0, b'l', b's', b'\n']);
    let r = read_message(&msg).unwrap();
    assert_eq!(r.consumed, 6);
    match &r.message {
        ClientMessage::Data(d) => assert_eq!(d, b"ls\n"),
        other => panic!("unexpected {:?}", other),
    }
    assert_eq!(socket_action(&r.message), SocketAction::WriteToTTY);
    let rs = resize_message(24, 300);
    assert_eq!(rs, [2, 24, 0, 44, 1]);
    let r = read_message(&rs).unwrap();
    assert!(matches!(r.message, ClientMessage::Resize { rows: 24, cols: 300 }));
    assert_eq!(r.consumed, 5);
    assert_eq!(socket_action(&r.message), SocketAction::Continue);
    let r = read_message(&[]).unwrap();
    assert!(matches!(r.message, ClientMessage::Nothing));
    assert_eq!(socket_action(&r.message), SocketAction::WouldBlock);
    assert!(matches!(read_message(&[9, 1]).unwrap().message, ClientMessage::Unknown(9)));
    assert_eq!(read_message(&[1, 0, 0]).unwrap_err(), FramingError::MissingDataLength);
    assert_eq!(read_message(&[2, 0, 0, 80, 0]).unwrap_err(), FramingError::InvalidResize);
    // a short read delivers what arrived
    let r = read_message(&[1, 10, 0, b'a']).unwrap();
    assert_eq!(r.consumed, 4);
    assert!(matches!(r.message, ClientMessage::Data(ref d) if d == b"a"));
}
