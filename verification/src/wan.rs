//! Packets arriving from an upstream (wan) device.

use vstd::prelude::*;

verus! {

/// What a datagram read from a UDP upstream carries, by its IP version.
#[derive(Clone, Copy, Debug, PartialEq, Eq, Structural)]
pub enum WanPacket {
    /// An IPv4 packet: parsed and routed
    V4,
    /// An IPv6 packet: handed to the IPv6 route
    V6,
    /// Anything else, with the version nibble found: dropped
    Unknown(u8),
}

/// Classifies a datagram by the version nibble of its first byte.
pub fn wan_packet_kind(pkt: &[u8]) -> (k: WanPacket)
    requires
        pkt@.len() >= 1,
    ensures
        k == (if pkt@[0] >> 4u8 == 4 {
            WanPacket::V4
        } else if pkt@[0] >> 4u8 == 6 {
            WanPacket::V6
        } else {
            WanPacket::Unknown(pkt@[0] >> 4u8)
        }),
{
    let version = pkt[0] >> 4;
    if version == 4 {
        WanPacket::V4
    } else if version == 6 {
        WanPacket::V6
    } else {
        WanPacket::Unknown(version)
    }
}

} // verus!
