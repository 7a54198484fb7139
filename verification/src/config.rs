//! Configuration of the virtual network: the upstream (wan) device, the
//! router and the virtio devices. Addresses are held as plain values; the
//! text forms of socket endpoints are resolved by the caller.

use vstd::prelude::*;

use crate::dhcp::DhcpConfig;
use crate::netaddress::NetworkAddress;

verus! {

/// An upstream tap device.
#[derive(Debug)]
pub struct TapConfig {
    /// Name of the tap device to create
    pub device: String,
}

/// An upstream reached over UDP.
#[derive(Debug)]
pub struct UdpConfig {
    /// The remote endpoint, as `address:port`
    pub endpoint: String,
}

/// An upstream reached over a wireguard tunnel.
#[derive(Debug)]
pub struct WgConfig {
    /// Private key of this end
    pub key: String,
    /// IPv4 address of this end
    pub ipv4: u32,
    /// Public key of the peer
    pub peer: String,
    /// The peer's endpoint, as `address:port`
    pub endpoint: String,
}

/// The upstream (default route) of the network.
#[derive(Debug)]
pub enum WanConfig {
    Tap(TapConfig),
    Udp(UdpConfig),
    Wireguard(WgConfig),
}

/// Settings of the router of a vhost network.
#[derive(Debug)]
pub struct RouterConfig {
    /// IPv4 address of the router
    pub ipv4: u32,
    /// Whether the router serves DHCP
    pub dhcp: bool,
    /// Whether the router serves DNS
    pub dns: bool,
}

/// Settings of the virtio devices.
#[derive(Debug)]
pub struct VirtioConfig {
    /// Number of transmit/receive queue pairs
    pub queues: u8,
}

/// The configuration of a vhost network.
#[derive(Debug)]
pub struct Config {
    pub wan: WanConfig,
    pub router: RouterConfig,
    pub virtio: VirtioConfig,
}

/// Settings of the router of a bridge: its address within its network, and
/// the pool its DHCP server leases from.
#[derive(Debug)]
pub struct BridgeRouterConfig {
    /// Address of the router, with the prefix of its network
    pub ipv4: NetworkAddress,
    /// The DHCP address pool
    pub dhcp: DhcpConfig,
}

/// The configuration of a bridge.
#[derive(Debug)]
pub struct BridgeConfig {
    pub wan: WanConfig,
    pub router: BridgeRouterConfig,
}

} // verus!
