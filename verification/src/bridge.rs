//! A bridge: a named virtual network that virtual machines join through a
//! vhost-user socket, and the decisions of its event loop.

use vstd::prelude::*;

use crate::config::BridgeConfig;
use crate::dhcp::{pool_range, DhcpServer, DHCP_LEASE_TIME, DHCP_SERVER_PORT};
use crate::error::ProtocolError;
use crate::handler::{echo_outcome, udp_outcome, IcmpHandler, PortHandler, ProtocolHandler, UdpHandler};
use crate::ipv4::{Ipv4Packet, NET_PROTOCOL_ICMP, NET_PROTOCOL_UDP};
use crate::netaddress::{IpAddress, NetworkAddress};
use crate::router::Router;
use crate::text::push_str;

verus! {

/// Token of the vhost-user listening socket.
pub const TOKEN_VHOST: usize = 0;

/// Token of the signal file descriptor.
pub const TOKEN_SIGNAL: usize = 1;

/// Signal number of SIGTERM.
pub const SIGTERM: u32 = 15;

/// Errors of a bridge.
#[derive(Debug)]
pub enum BridgeError {
    /// Any failure, described
    Other(String),
}

/// Builds a [`Bridge`].
#[derive(Debug)]
pub struct BridgeBuilder {
    /// Path to pcap file, or None to disable pcap
    pcap: Option<String>,
}

/// A bridge ready to run.
#[derive(Debug)]
pub struct Bridge {
    socket_path: String,
    pcap: Option<String>,
    cfg: BridgeConfig,
}

/// A protocol handler of the bridge's router: the ICMP echo handler or the
/// UDP handler serving DHCP.
pub enum BridgeHandler {
    /// Answers echo requests
    Echo(IcmpHandler),
    /// Dispatches datagrams to the DHCP server
    Udp(UdpHandler<DhcpServer>),
}

impl ProtocolHandler for BridgeHandler {
    open spec fn inv(&self) -> bool {
        match self {
            BridgeHandler::Echo(h) => h.inv(),
            BridgeHandler::Udp(u) => u.wf(),
        }
    }

    open spec fn spec_protocol(&self) -> u8 {
        match self {
            BridgeHandler::Echo(_) => NET_PROTOCOL_ICMP,
            BridgeHandler::Udp(_) => NET_PROTOCOL_UDP,
        }
    }

    open spec fn handles(
        &self,
        pkt: Ipv4Packet,
        b0: Seq<u8>,
        after: Self,
        b1: Seq<u8>,
        r: Result<usize, ProtocolError>,
    ) -> bool {
        match (*self, after) {
            (BridgeHandler::Echo(_), BridgeHandler::Echo(_)) => echo_outcome(pkt, b0, b1, r),
            (BridgeHandler::Udp(u0), BridgeHandler::Udp(u1)) => udp_outcome(u0, u1, pkt, b0, b1, r),
            _ => false,
        }
    }

    fn protocol(&self) -> (p: u8) {
        match self {
            BridgeHandler::Echo(h) => h.protocol(),
            BridgeHandler::Udp(u) => u.protocol(),
        }
    }

    fn handle_protocol(&mut self, pkt: &Ipv4Packet, buf: &mut [u8]) -> (r: Result<usize, ProtocolError>) {
        match self {
            BridgeHandler::Echo(h) => h.handle_protocol(pkt, buf),
            BridgeHandler::Udp(u) => u.handle_protocol(pkt, buf),
        }
    }
}

/// Path of the vhost-user socket of the bridge named `name`.
pub open spec fn socket_path_of(name: Seq<char>) -> Seq<char> {
    "/tmp/oathgate/"@ + name + ".sock"@
}

/// What the bridge's event loop does when the source under a token is
/// readable.
#[derive(Clone, Copy, Debug, PartialEq, Eq, Structural)]
pub enum BridgeAction {
    /// Accept a virtual machine on the vhost-user socket
    Accept,
    /// Read the pending signal, if any, and ask [`Bridge::on_signal`]
    ReadSignal,
    /// Nothing is registered under this token
    Unknown(usize),
}

/// What a received signal does to the bridge's event loop.
#[derive(Clone, Copy, Debug, PartialEq, Eq, Structural)]
pub enum BridgeSignal {
    /// Leave the loop: the bridge stops
    Stop,
    /// Keep running; the signal is only reported
    Unhandled(u32),
}

impl BridgeBuilder {
    /// The pcap path configured.
    pub closed spec fn spec_pcap(&self) -> Option<Seq<char>> {
        match self.pcap {
            Some(p) => Some(p@),
            None => None,
        }
    }

    /// A builder without pcap capture.
    pub fn new() -> (b: Self)
        ensures
            b.spec_pcap() is None,
    {
        BridgeBuilder { pcap: None }
    }

    /// Configures bridge to log all traffic transiting the switch
    ///
    /// ### Arguments
    /// * `pcap` - Path to location to save pcap file, or None to disable
    pub fn pcap(self, pcap: Option<String>) -> (b: Self)
        ensures
            b.spec_pcap() == (match pcap {
                Some(p) => Some(p@),
                None => None::<Seq<char>>,
            }),
    {
        BridgeBuilder { pcap }
    }

    /// Builds the bridge named `name`, whose vhost-user socket is
    /// `/tmp/oathgate/{name}.sock`.
    pub fn build(self, cfg: BridgeConfig, name: &str) -> (r: Result<Bridge, BridgeError>)
        ensures
            r matches Ok(b) && b.spec_socket_path() == socket_path_of(name@)
                && b.spec_pcap() == self.spec_pcap() && b.spec_config() == cfg,
    {
        let mut socket = String::new();
        push_str(&mut socket, "/tmp/oathgate/");
        push_str(&mut socket, name);
        push_str(&mut socket, ".sock");
        assert(socket@ =~= socket_path_of(name@));
        Ok(Bridge { socket_path: socket, pcap: self.pcap, cfg })
    }
}

impl Default for BridgeBuilder {
    fn default() -> (b: Self)
        ensures
            b.spec_pcap() is None,
    {
        BridgeBuilder::new()
    }
}

impl Bridge {
    /// Path of the vhost-user socket.
    pub closed spec fn spec_socket_path(&self) -> Seq<char> {
        self.socket_path@
    }

    /// The pcap path, if traffic is captured.
    pub closed spec fn spec_pcap(&self) -> Option<Seq<char>> {
        match self.pcap {
            Some(p) => Some(p@),
            None => None,
        }
    }

    /// The bridge's configuration.
    pub closed spec fn spec_config(&self) -> BridgeConfig {
        self.cfg
    }

    /// Path of the vhost-user socket.
    pub fn socket_path(&self) -> (p: &str)
        ensures
            p@ == self.spec_socket_path(),
    {
        self.socket_path.as_str()
    }

    /// The pcap path, if traffic is captured.
    pub fn pcap_path(&self) -> (p: Option<&str>)
        ensures
            match p {
                Some(s) => self.spec_pcap() == Some(s@),
                None => self.spec_pcap() is None,
            },
    {
        match &self.pcap {
            Some(p) => Some(p.as_str()),
            None => None,
        }
    }

    /// The bridge's configuration.
    pub fn config(&self) -> (c: &BridgeConfig)
        ensures
            *c == self.spec_config(),
    {
        &self.cfg
    }

    /// The bridge's router, connected to the switch at `port`: on the
    /// configured address, with an ICMP handler answering echo requests and
    /// a UDP handler whose one port handler is a DHCP server on port 67 for
    /// the configured network and pool.
    pub fn router(&self, port: usize) -> (r: Router<BridgeHandler>)
        requires
            self.spec_config().router.ipv4.spec_ip() is V4,
        ensures
            r.wf(),
            r.spec_network().spec_ip() == self.spec_config().router.ipv4.spec_ip(),
            r.spec_port() == port,
            r.table() == Map::<u32, Seq<u8>>::empty(),
            r.handlers().len() == 2,
            r.handlers()[0] is Echo,
            r.handlers()[0].spec_protocol() == NET_PROTOCOL_ICMP,
            r.handlers()[1].spec_protocol() == NET_PROTOCOL_UDP,
            r.handlers()[1] matches BridgeHandler::Udp(u) && u.spec_handlers().len() == 1 && ({
                let d = u.spec_handlers()[0];
                &&& d.spec_port() == DHCP_SERVER_PORT
                &&& d.spec_network().spec_ip() == self.spec_config().router.ipv4.spec_ip()
                &&& d.spec_network().spec_prefix() == self.spec_config().router.ipv4.spec_prefix()
                &&& d.pool() == pool_range(self.spec_config().router.dhcp.start, self.spec_config().router.dhcp.end)
                &&& d.leases() == Map::<u32, Seq<u8>>::empty()
                &&& d.spec_lease_time() == DHCP_LEASE_TIME
            }),
    {
        let mut udp: UdpHandler<DhcpServer> = UdpHandler::new();
        let ip4 = match self.cfg.router.ipv4.ip() {
            IpAddress::V4(a) => a,
            IpAddress::V6(_) => 0,
        };
        let network = NetworkAddress::new_v4_value(ip4, self.cfg.router.ipv4.subnet_mask_bits());
        let dhcp = DhcpServer::new(network, self.cfg.router.dhcp);
        udp.register_port_handler(dhcp);
        let b = Router::builder();
        let b = b.register_proto_handler(BridgeHandler::Echo(IcmpHandler::new()));
        let b = b.register_proto_handler(BridgeHandler::Udp(udp));
        b.build(ip4, port)
    }

    /// What to do about a readable `token`.
    pub fn dispatch(token: usize) -> (a: BridgeAction)
        ensures
            a == (if token == TOKEN_VHOST {
                BridgeAction::Accept
            } else if token == TOKEN_SIGNAL {
                BridgeAction::ReadSignal
            } else {
                BridgeAction::Unknown(token)
            }),
    {
        if token == TOKEN_VHOST {
            BridgeAction::Accept
        } else if token == TOKEN_SIGNAL {
            BridgeAction::ReadSignal
        } else {
            BridgeAction::Unknown(token)
        }
    }

    /// What a received signal does: SIGTERM stops the bridge.
    pub fn on_signal(signo: u32) -> (s: BridgeSignal)
        ensures
            s == (if signo == SIGTERM {
                BridgeSignal::Stop
            } else {
                BridgeSignal::Unhandled(signo)
            }),
    {
        if signo == SIGTERM {
            BridgeSignal::Stop
        } else {
            BridgeSignal::Unhandled(signo)
        }
    }
}

} // verus!
