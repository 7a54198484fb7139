use oathgate::dhcp::{check_dhcp_options, DhcpConfig, DhcpHeader, DhcpRequest, DhcpServer};
use oathgate::error::ProtocolError;
use oathgate::handler::PortHandler;
use oathgate::netaddress::{IpAddress, NetworkAddress};

fn ip(o: [u8; 4]) -> u32 {
    u32::from_be_bytes(o)
}

fn server() -> DhcpServer {
    let net = NetworkAddress::new_v4([10, 0, 0, 1], 24);
    DhcpServer::new(net, DhcpConfig { start: ip([10, 0, 0, 100]), end: ip([10, 0, 0, 102]) })
}

/// A BOOTP request with the given message type and options.
fn message(msg_type: Option<u8>, mac: [u8; 6], requested: Option<[u8; 4]>) -> Vec<u8> {
    let mut m = vec![0u8; 240];
    m[0] = 1; // BOOTREQUEST
    m[1] = 1; // ethernet
    m[2] = 6;
    m[4..8].copy_from_slice(&[0x12, 0x34, 0x56, 0x78]);
    m[10] = 0x80; // broadcast flag
    m[28..34].copy_from_slice(&mac);
    m[236..240].copy_from_slice(&[99, 130, 83, 99]);
    if let Some(t) = msg_type {
        m.extend_from_slice(&[53, 1, t]);
    }
    if let Some(r) = requested {
        m.extend_from_slice(&[50, 4, r[0], r[1], r[2], r[3]]);
    }
    m.push(255);
    m
}

/// The value of option `code` in an encoded reply.
fn option(reply: &[u8], code: u8) -> Option<Vec<u8>> {
    let mut i = 240;
    while i < reply.len() {
        let c = reply[i];
        if c == 255 {
            return None;
        }
        if c == 0 {
            i += 1;
            continue;
        }
        let len = reply[i + 1] as usize;
        if c == code {
            return Some(reply[i + 2..i + 2 + len].to_vec());
        }
        i += 2 + len;
    }
    None
}

#[test]
fn discover_gets_offer_from_pool() {
    let mut s = server();
    let mut buf = vec![0u8; 1532];
    let n = s.handle_port(&message(Some(1), [2, 0, 0, 0, 0, 9], None), &mut buf).unwrap();
    assert_eq!(n, 280);
    let r = &buf[..n];
    assert_eq!(r[0], 2);
    assert_eq!(r[1], 1);
    assert_eq!(r[2], 6);
    assert_eq!(&r[4..8], &[0x12, 0x34, 0x56, 0x78]);
    assert_eq!(&r[10..12], &[0x80, 0x00]);
    assert_eq!(&r[16..20], &[10, 0, 0, 100]);
    assert_eq!(&r[20..24], &[10, 0, 0, 1]);
    assert_eq!(&r[28..34], &[2, 0, 0, 0, 0, 9]);
    assert_eq!(&r[236..240], &[99, 130, 83, 99]);
    assert_eq!(r[279], 255);
    assert_eq!(option(r, 53), Some(vec![2]));
    assert_eq!(option(r, 51), Some(86400u32.to_be_bytes().to_vec()));
    assert_eq!(option(r, 54), Some(vec![10, 0, 0, 1]));
    assert_eq!(option(r, 1), Some(vec![255, 255, 255, 0]));
    assert_eq!(option(r, 28), Some(vec![10, 0, 0, 255]));
    assert_eq!(option(r, 3), Some(vec![10, 0, 0, 1]));
    assert_eq!(option(r, 6), Some(vec![1, 1, 1, 1]));
}

#[test]
fn request_gets_ack_for_requested_address() {
    let mut s = server();
    let mut buf = vec![0u8; 1532];
    let n = s
        .handle_port(&message(Some(3), [2, 0, 0, 0, 0, 9], Some([10, 0, 0, 101])), &mut buf)
        .unwrap();
    assert_eq!(n, 280);
    assert_eq!(&buf[16..20], &[10, 0, 0, 101]);
    assert_eq!(option(&buf[..n], 53), Some(vec![5]));
    // the same client asking again keeps its address
    let n = s
        .handle_port(&message(Some(3), [2, 0, 0, 0, 0, 9], Some([10, 0, 0, 101])), &mut buf)
        .unwrap();
    assert_eq!(n, 280);
    assert_eq!(&buf[16..20], &[10, 0, 0, 101]);
    // another client asking for it gets the next free address instead
    let n = s
        .handle_port(&message(Some(3), [2, 0, 0, 0, 0, 7], Some([10, 0, 0, 101])), &mut buf)
        .unwrap();
    assert_eq!(n, 280);
    assert_eq!(&buf[16..20], &[10, 0, 0, 100]);
}

#[test]
fn pool_exhaustion_leases_nothing() {
    let mut s = server();
    let mut buf = vec![0u8; 1532];
    for k in 0..3u8 {
        let n = s.handle_port(&message(Some(1), [2, 0, 0, 0, 1, k], None), &mut buf).unwrap();
        assert_eq!(n, 280);
        assert_eq!(&buf[16..20], &[10, 0, 0, 100 + k]);
    }
    let before = buf.clone();
    match s.handle_port(&message(Some(1), [2, 0, 0, 0, 1, 9], None), &mut buf) {
        Err(ProtocolError::Other(e)) => assert_eq!(e, "address space exhausted"),
        other => panic!("unexpected {:?}", other),
    }
    assert_eq!(buf, before);
}

#[test]
fn other_message_types_get_no_answer() {
    let mut s = server();
    let mut buf = vec![7u8; 1532];
    assert!(matches!(s.handle_port(&message(Some(7), [2, 0, 0, 0, 0, 9], None), &mut buf), Ok(0)));
    assert!(buf.iter().all(|b| *b == 7));
}

#[test]
fn missing_message_type_is_an_error() {
    let mut s = server();
    let mut buf = vec![0u8; 1532];
    match s.handle_port(&message(None, [2, 0, 0, 0, 0, 9], None), &mut buf) {
        Err(ProtocolError::Other(e)) => assert_eq!(e, "dhcp missing msg type"),
        other => panic!("unexpected {:?}", other),
    }
}

#[test]
fn undecodable_message_is_an_error() {
    let mut s = server();
    let mut buf = vec![0u8; 1532];
    match s.handle_port(&[1, 2, 3], &mut buf) {
        Err(ProtocolError::Other(_)) => (),
        other => panic!("unexpected {:?}", other),
    }
}

#[test]
fn short_hardware_address_is_malformed() {
    let mut s = server();
    let mut buf = vec![0u8; 1532];
    let mut m = message(Some(1), [2, 0, 0, 0, 0, 9], None);
    m[2] = 4;
    match s.handle_port(&m, &mut buf) {
        Err(ProtocolError::MalformedPacket(_)) => (),
        other => panic!("unexpected {:?}", other),
    }
}

#[test]
fn server_port_is_67() {
    assert_eq!(server().port(), 67);
}

fn request(mac: [u8; 6], want: Option<u32>) -> DhcpRequest {
    DhcpRequest {
        header: DhcpHeader {
            htype: 1,
            hlen: 6,
            xid: 1,
            flags: 0,
            ciaddr: 0,
            giaddr: 0,
            msg_type: Some(3),
            requested_ip: want,
        },
        chaddr: mac.to_vec(),
    }
}

#[test]
fn lease_keeps_holders() {
    let mut s = server();
    let a = s.lease_ip(&request([2, 0, 0, 0, 0, 1], None)).unwrap();
    assert_eq!(a.ip(), IpAddress::V4(ip([10, 0, 0, 100])));
    assert_eq!(a.subnet_mask_bits(), 24);
    // a different client asking for the same address does not take it over
    let b = s.lease_ip(&request([2, 0, 0, 0, 0, 2], Some(ip([10, 0, 0, 100])))).unwrap();
    assert_eq!(b.ip(), IpAddress::V4(ip([10, 0, 0, 101])));
    // the holder asking again gets it back
    let c = s.lease_ip(&request([2, 0, 0, 0, 0, 1], Some(ip([10, 0, 0, 100])))).unwrap();
    assert_eq!(c.ip(), IpAddress::V4(ip([10, 0, 0, 100])));
}

/// A discover message with `extra` placed before its end option.
fn with_option(extra: &[u8]) -> Vec<u8> {
    let mut m = message(Some(1), [2, 0, 0, 0, 0, 9], None);
    let end = m.pop().unwrap();
    m.extend_from_slice(extra);
    m.push(end);
    m
}

#[test]
fn options_of_asserted_lengths_are_checked() {
    assert!(check_dhcp_options(&message(Some(1), [2, 0, 0, 0, 0, 9], None)));
    // rapid commit carries no value
    assert!(check_dhcp_options(&with_option(&[80, 0])));
    assert!(!check_dhcp_options(&with_option(&[80, 1, 7])));
    // bulk lease query status code needs its code byte
    assert!(!check_dhcp_options(&with_option(&[151, 0])));
    assert!(check_dhcp_options(&with_option(&[151, 1, 0])));
    // client FQDN needs flags and two rcodes; consecutive parts are joined
    assert!(!check_dhcp_options(&with_option(&[81, 2, 0, 0])));
    assert!(check_dhcp_options(&with_option(&[81, 2, 0, 0, 81, 1, 0])));
    // a bulk lease query time is four bytes
    assert!(!check_dhcp_options(&with_option(&[152, 2, 0, 0])));
    // short messages have no options to check
    assert!(check_dhcp_options(&[1, 2, 3]));
    let mut s = server();
    let mut buf = vec![3u8; 1532];
    match s.handle_port(&with_option(&[94, 2, 1, 1]), &mut buf) {
        Err(ProtocolError::MalformedPacket(_)) => (),
        other => panic!("unexpected {:?}", other),
    }
    assert!(buf.iter().all(|b| *b == 3));
}
