use oathgate::netaddress::{IpAddress, NetworkAddress};

fn v4(octets: [u8; 4]) -> IpAddress {
    IpAddress::V4(u32::from_be_bytes(octets))
}

#[test]
fn types_create_cidr_ipv4() {
    let cidr = NetworkAddress::new_v4([10, 10, 10, 1], 24);
    assert_eq!("10.10.10.1/24", &cidr.to_string());
}

#[test]
fn types_get_network_addresss_ipv4() {
    let cidr = NetworkAddress::new_v4([10, 10, 10, 1], 24);
    let net = cidr.network();
    assert_eq!("10.10.10.0", &net.to_string());
}

#[test]
fn types_get_broadcast_addresss_ipv4() {
    let cidr = NetworkAddress::new_v4([10, 10, 10, 1], 24);
    let net = cidr.broadcast();
    assert_eq!("10.10.10.255", &net.to_string());
}

#[test]
fn types_contains_ipv4_good() {
    let cidr = NetworkAddress::new_v4([10, 10, 10, 1], 24);
    let val = cidr.contains(v4([10, 10, 10, 45]));
    assert_eq!(val, true, "10.10.10.0/24 cidr should contain 10.10.10.45");
}

#[test]
fn types_contains_ipv4_bad() {
    let cidr = NetworkAddress::new_v4([10, 10, 10, 1], 24);
    let val = cidr.contains(v4([10, 10, 11, 45]));
    assert_eq!(val, false, "10.10.10.0/24 cidr should not contain 10.10.11.45");
}

#[test]
fn netaddress_create_cidr_ipv4() {
    let cidr = NetworkAddress::new_v4([10, 10, 10, 1], 24);
    assert_eq!("10.10.10.1/24", &cidr.to_string());
}

#[test]
fn netaddress_get_network_addresss_ipv4() {
    let cidr = NetworkAddress::new_v4([10, 10, 10, 1], 24);
    let net = cidr.network();
    assert_eq!("10.10.10.0", &net.to_string());
}

#[test]
fn netaddress_get_broadcast_addresss_ipv4() {
    let cidr = NetworkAddress::new_v4([10, 10, 10, 1], 24);
    let net = cidr.broadcast();
    assert_eq!("10.10.10.255", &net.to_string());
}

#[test]
fn netaddress_contains_ipv4_good() {
    let cidr = NetworkAddress::new_v4([10, 10, 10, 1], 24);
    let val = cidr.contains(v4([10, 10, 10, 45]));
    assert_eq!(val, true, "10.10.10.0/24 cidr should contain 10.10.10.45");
}

#[test]
fn netaddress_contains_ipv4_bad() {
    let cidr = NetworkAddress::new_v4([10, 10, 10, 1], 24);
    let val = cidr.contains(v4([10, 10, 11, 45]));
    assert_eq!(val, false, "10.10.10.0/24 cidr should not contain 10.10.11.45");
}

#[test]
fn parse_ipv4_string() {
    let cidr: NetworkAddress = NetworkAddress::from_str("10.10.10.213/25").unwrap();
    let net = cidr.network();
    let broadcast = cidr.broadcast();
    assert_eq!("10.10.10.128", &net.to_string(), "network mismatch");
    assert_eq!("10.10.10.255", &broadcast.to_string(), "broadcast mismatch");
}

#[test]
fn parse_cidr_without_prefix_is_host() {
    let cidr = NetworkAddress::from_str("192.168.2.1").unwrap();
    assert_eq!(cidr.subnet_mask_bits(), 32);
    assert_eq!(cidr.to_string(), "192.168.2.1/32");
}

#[test]
fn parse_cidr_errors() {
    assert_eq!(NetworkAddress::from_str("10.10.10/24").unwrap_err(), "unable to parse ip address");
    assert_eq!(NetworkAddress::from_str("10.10.10.256/24").unwrap_err(), "unable to parse ip address");
    assert_eq!(NetworkAddress::from_str("10.10.10.1/x").unwrap_err(), "unable to parse subnet mask");
    assert_eq!(NetworkAddress::from_str("10.10.10.1/300").unwrap_err(), "unable to parse subnet mask");
}

#[test]
fn cidr_text_roundtrip() {
    let cidr = NetworkAddress::new_v4([172, 16, 5, 4], 12);
    let text = cidr.to_string();
    let back = NetworkAddress::from_str(&text).unwrap();
    assert_eq!(back.to_string(), text);
    assert_eq!(back.subnet_mask_bits(), 12);
}

#[test]
fn subnet_mask_and_broadcast_edges() {
    let cidr = NetworkAddress::new_v4([10, 0, 0, 7], 0);
    assert_eq!(cidr.subnet_mask().to_string(), "0.0.0.0");
    assert_eq!(cidr.network().to_string(), "0.0.0.0");
    assert_eq!(cidr.broadcast().to_string(), "255.255.255.255");
    let host = NetworkAddress::new_v4([10, 0, 0, 7], 32);
    assert_eq!(host.subnet_mask().to_string(), "255.255.255.255");
    assert_eq!(host.network().to_string(), "10.0.0.7");
}

#[test]
fn next_address_keeps_prefix() {
    let cidr = NetworkAddress::new_v4([10, 10, 10, 254], 24);
    let n = cidr.next().unwrap();
    assert_eq!(n.to_string(), "10.10.10.255/24");
    let last = NetworkAddress::new_v4([255, 255, 255, 255], 24);
    assert!(last.next().is_none());
}

#[test]
fn contains_in_subnet_edges() {
    let cidr = NetworkAddress::new_v4([10, 10, 10, 1], 24);
    assert!(cidr.contains_in_subnet(v4([10, 10, 10, 0])));
    assert!(cidr.contains_in_subnet(v4([10, 10, 10, 255])));
    assert!(!cidr.contains_in_subnet(v4([10, 10, 9, 255])));
    assert!(cidr.contains(v4([255, 255, 255, 255])));
}
