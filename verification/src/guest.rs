//! The fabrial service inside a virtual machine: its context id, where it
//! listens, how it reaches the host, and the decisions of its event loop.

use vstd::prelude::*;

use crate::types::MacAddress;

verus! {

/// Port the fabrial service listens on by default.
pub const FABRIAL_PORT: u32 = 3715;

/// Port of the host's service when running over TCP.
pub const HOST_TCP_PORT: u16 = 3714;

/// The vsock context id meaning "any".
pub const VMADDR_CID_ANY: u32 = 0xFFFF_FFFF;

/// Token of the listening socket.
pub const TOKEN_VSOCK: usize = 0;

/// Token of the health timer.
pub const TOKEN_HEALTH_TIMER: usize = 1;

/// The context id derived from a hardware address: its last two bytes,
/// big-endian.
pub open spec fn cid_of(mac: Seq<u8>) -> u32 {
    (mac[4] as int * 256 + mac[5] as int) as u32
}

/// Derives the context id of this machine from the hardware address of its
/// interface: the last two bytes, big-endian.
pub fn cid_from_mac(mac: &MacAddress) -> (cid: u32)
    ensures
        cid == cid_of(mac@),
        cid < 0x10000,
{
    proof {
        crate::types::lemma_mac_len(*mac);
    }
    let b = mac.as_bytes();
    (b[4] as u32) * 256 + (b[5] as u32)
}

/// A socket address of the host or of this service.
#[derive(Clone, Copy, Debug)]
pub enum SocketTarget {
    /// An IPv4 address and TCP port
    Tcp([u8; 4], u16),
    /// A vsock context id and port
    Vsock(u32, u32),
}

/// How to reach the host.
#[derive(Clone, Copy, Debug)]
pub struct Host {
    target: SocketTarget,
}

impl Host {
    /// Where the host is.
    pub closed spec fn spec_target(&self) -> SocketTarget {
        self.target
    }

    /// The host at `addr`, TCP `port`.
    pub fn new_tcp(addr: [u8; 4], port: u16) -> (h: Host)
        ensures
            h.spec_target() == SocketTarget::Tcp(addr, port),
    {
        Host { target: SocketTarget::Tcp(addr, port) }
    }

    /// The host at vsock context id `cid`, `port`.
    pub fn new_vsock(cid: u32, port: u32) -> (h: Host)
        ensures
            h.spec_target() == SocketTarget::Vsock(cid, port),
    {
        Host { target: SocketTarget::Vsock(cid, port) }
    }

    /// Where the host is.
    pub fn target(&self) -> (t: SocketTarget)
        ensures
            t == self.spec_target(),
    {
        self.target
    }

    /// The message telling the host that the machine `id` started: the id,
    /// little-endian.
    pub fn started_message(id: u32) -> (m: [u8; 4])
        ensures
            m[0] == id % 256,
            m[1] == (id / 256) % 256,
            m[2] == (id / 65536) % 256,
            m[3] == id / 16777216,
    {
        [(id % 256) as u8, ((id / 256) % 256) as u8, ((id / 65536) % 256) as u8, (id / 16777216) as u8]
    }
}

/// Where the service listens and how it reaches the host: over TCP, on the
/// loopback address at `port` (taken modulo 2^16), with the host on the
/// loopback address at 3714; over vsock, on any context id at `port`, with
/// the host at the machine's own context id used as both id and port.
pub fn listen_plan(tcp: bool, port: u32, cid: u32) -> (r: (SocketTarget, Host))
    ensures
        tcp ==> r.0 == SocketTarget::Tcp([127u8, 0u8, 0u8, 1u8], (port % 65536) as u16)
            && r.1.spec_target() == SocketTarget::Tcp([127u8, 0u8, 0u8, 1u8], HOST_TCP_PORT),
        !tcp ==> r.0 == SocketTarget::Vsock(VMADDR_CID_ANY, port)
            && r.1.spec_target() == SocketTarget::Vsock(cid, cid),
{
    if tcp {
        let p: u16 = (port % 65536) as u16;
        (SocketTarget::Tcp([127, 0, 0, 1], p), Host::new_tcp([127, 0, 0, 1], HOST_TCP_PORT))
    } else {
        (SocketTarget::Vsock(VMADDR_CID_ANY, port), Host::new_vsock(cid, cid))
    }
}

/// What the service's event loop does when the source under a token is
/// readable.
#[derive(Clone, Copy, Debug, PartialEq, Eq, Structural)]
pub enum GuestAction {
    /// Accept the connection and spawn a terminal session for it
    AcceptAndSpawn,
    /// The health timer fired: nothing to do
    HealthTick,
    /// Nothing is registered under this token
    Unknown(usize),
}

/// What to do about a readable `token`.
pub fn guest_dispatch(token: usize) -> (a: GuestAction)
    ensures
        a == (if token == TOKEN_VSOCK {
            GuestAction::AcceptAndSpawn
        } else if token == TOKEN_HEALTH_TIMER {
            GuestAction::HealthTick
        } else {
            GuestAction::Unknown(token)
        }),
{
    if token == TOKEN_VSOCK {
        GuestAction::AcceptAndSpawn
    } else if token == TOKEN_HEALTH_TIMER {
        GuestAction::HealthTick
    } else {
        GuestAction::Unknown(token)
    }
}

} // verus!
