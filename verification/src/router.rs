//! A simple layer 3 router: answers ARP for its own address, hands packets
//! addressed to it to protocol handlers, sends packets for its network to
//! the switch and everything else to the WAN.

use vstd::prelude::*;
use std::collections::HashMap;

use crate::arp::{arp_bytes, arp_matches, arp_reply_of, ArpPacket, ARP_PACKET_SZ};
use crate::bytes::slice_to_vec;
use crate::error::ProtocolError;
use crate::frame::EthernetPacket;
use crate::handler::{ProtocolHandler, PROTOCOL_BUF_LEN};
use crate::ipv4::{be32_at, header_bytes, header_of, Ipv4Header, Ipv4Packet};
use crate::local::is_reply_header;
use crate::netaddress::{IpAddress, NetworkAddress};
use crate::types::{ethertype_code, lemma_mac_len, EtherType, MacAddress};

verus! {

broadcast use {lemma_mac_len, vstd::std_specs::hash::group_hash_axioms};

/// Size of the buffer an answer to a packet for the router is built in.
pub const ROUTER_BUF_SZ: usize = 1560;

/// Length of the IPv4 header of an answer.
pub const IPV4_HDR_SZ: usize = 20;

/// A message to the router.
#[derive(Debug)]
pub enum RouterMsg {
    /// A frame from the switch
    Lan(EthernetPacket),
    /// An IPv4 packet from the WAN
    Wan4(Ipv4Packet),
}

/// What the router decided to do with a packet.
#[derive(Debug)]
pub enum RouterAction {
    /// Send to a device of the local network, found by its IP address
    ToLan(EtherType, IpAddress, Vec<u8>),
    /// Send upstream
    ToWan(Ipv4Packet),
    /// Drop
    Drop(Vec<u8>),
}

/// Where the router sends a packet.
#[derive(Debug)]
pub enum Forward {
    /// This Ethernet frame goes to the router's switch port
    Switch(Vec<u8>),
    /// This packet goes to the WAN
    Wan(Ipv4Packet),
}

/// The Ethernet frame from `src` to `dst` carrying `pkt`.
pub open spec fn frame_to(dst: Seq<u8>, src: Seq<u8>, et: EtherType, pkt: Seq<u8>) -> Seq<u8> {
    dst + src + seq![(ethertype_code(et) / 256) as u8, (ethertype_code(et) % 256) as u8] + pkt
}

/// The frame a packet for the local device at `dst` leaves in, when the
/// address table `table` knows it.
pub open spec fn lan_frame(
    table: Map<u32, Seq<u8>>,
    mac: Seq<u8>,
    et: EtherType,
    dst: IpAddress,
    pkt: Seq<u8>,
) -> Option<Seq<u8>> {
    match dst {
        IpAddress::V4(d) => if table.contains_key(d) {
            Some(frame_to(table[d], mac, et, pkt))
        } else {
            None
        },
        IpAddress::V6(_) => None,
    }
}

/// The index of the handler of IPv4 protocol `proto` among `hs`, if any.
pub open spec fn proto_index<H: ProtocolHandler>(hs: Seq<H>, proto: u8) -> Option<int> {
    if exists|i: int| 0 <= i < hs.len() && #[trigger] hs[i].spec_protocol() == proto {
        Some(choose|i: int| 0 <= i < hs.len() && #[trigger] hs[i].spec_protocol() == proto)
    } else {
        None
    }
}

/// Handlers keep their invariant and no two handle the same protocol.
pub open spec fn handlers_wf<H: ProtocolHandler>(hs: Seq<H>) -> bool {
    &&& forall|i: int| 0 <= i < hs.len() ==> #[trigger] hs[i].inv()
    &&& forall|i: int, j: int|
        0 <= i < hs.len() && 0 <= j < hs.len() && i != j ==> #[trigger] hs[i].spec_protocol()
            != #[trigger] hs[j].spec_protocol()
}

/// Finds the handler of IPv4 protocol `proto` among `hs`.
fn find_proto<H: ProtocolHandler>(hs: &Vec<H>, proto: u8) -> (r: Option<usize>)
    requires
        handlers_wf(hs@),
    ensures
        r matches Some(i) ==> proto_index(hs@, proto) == Some(i as int),
        r is None ==> proto_index(hs@, proto) is None,
{
    let mut i: usize = 0;
    while i < hs.len()
        invariant
            handlers_wf(hs@),
            i <= hs@.len(),
            forall|k: int| 0 <= k < i ==> #[trigger] hs@[k].spec_protocol() != proto,
        decreases hs@.len() - i,
    {
        if hs[i].protocol() == proto {
            proof {
                assert(hs@[i as int].spec_protocol() == proto);
                let c = choose|k: int| 0 <= k < hs@.len() && #[trigger] hs@[k].spec_protocol() == proto;
                if c != i as int {
                    assert(hs@[c].spec_protocol() != hs@[i as int].spec_protocol());
                }
            }
            return Some(i);
        }
        i = i + 1;
    }
    None
}

/// The router of a virtual network.
pub struct Router<H> {
    arp: HashMap<u32, MacAddress>,
    port: usize,
    mac: MacAddress,
    network: NetworkAddress,
    ip4_handlers: Vec<H>,
}

impl<H: ProtocolHandler> Router<H> {
    /// IPv4 addresses and the hardware address learned for each.
    pub closed spec fn table(&self) -> Map<u32, Seq<u8>> {
        self.arp@.map_values(|m: MacAddress| m@)
    }

    /// The router's hardware address.
    pub closed spec fn spec_mac(&self) -> MacAddress {
        self.mac
    }

    /// The router's network; its IP address is the router's.
    pub closed spec fn spec_network(&self) -> NetworkAddress {
        self.network
    }

    /// The switch port of the router.
    pub closed spec fn spec_port(&self) -> usize {
        self.port
    }

    /// The protocol handlers.
    pub closed spec fn handlers(&self) -> Seq<H> {
        self.ip4_handlers@
    }

    /// The router's address.
    pub open spec fn spec_ip(&self) -> u32 {
        self.spec_network().spec_ip()->V4_0
    }

    /// An IPv4 router with well-formed handlers.
    pub open spec fn wf(&self) -> bool {
        &&& self.spec_network().spec_ip() is V4
        &&& handlers_wf(self.handlers())
    }

    /// Returns the switch port of the router.
    pub fn port(&self) -> (p: usize)
        ensures
            p == self.spec_port(),
    {
        self.port
    }

    /// The Ethernet frame from the router to `dst` carrying `pkt`.
    fn frame(&self, dst: MacAddress, ethertype: EtherType, pkt: Vec<u8>) -> (data: Vec<u8>)
        ensures
            data@ == frame_to(dst@, self.spec_mac()@, ethertype, pkt@),
    {
        let mut pkt = pkt;
        let ghost p0 = pkt@;
        let code = ethertype.as_u16();
        let mut data: Vec<u8> = Vec::new();
        data.extend_from_slice(dst.as_bytes());
        data.extend_from_slice(self.mac.as_bytes());
        data.push((code / 256) as u8);
        data.push((code % 256) as u8);
        data.append(&mut pkt);
        assert(data@ =~= frame_to(dst@, self.spec_mac()@, ethertype, p0));
        data
    }

    /// Returns true if a packet is destined for the router itself.
    fn is_local(&self, dst: IpAddress) -> (r: bool)
        ensures
            r == (self.spec_network().spec_ip() == dst),
    {
        self.network.eq_ip(dst)
    }

    /// Looks up the hardware address learned for `ip`.
    fn lookup(&self, ip: IpAddress) -> (r: Option<MacAddress>)
        ensures
            match ip {
                IpAddress::V4(d) => if self.table().contains_key(d) {
                    r matches Some(m) && m@ == self.table()[d]
                } else {
                    r is None
                },
                IpAddress::V6(_) => r is None,
            },
    {
        match ip {
            IpAddress::V4(d) => match self.arp.get(&d) {
                Some(m) => Some(*m),
                None => None,
            },
            IpAddress::V6(_) => None,
        }
    }

    /// Carries out a routing decision: a packet for the local network
    /// leaves in a frame to the hardware address learned for its
    /// destination (and is dropped when none is known), a packet for
    /// upstream goes to the WAN.
    pub fn handle_action(&mut self, action: RouterAction) -> (r: Option<Forward>)
        ensures
            *final(self) == *old(self),
            match action {
                RouterAction::ToLan(et, dst, pkt) => match lan_frame(
                    old(self).table(),
                    old(self).spec_mac()@,
                    et,
                    dst,
                    pkt@,
                ) {
                    Some(f) => r matches Some(Forward::Switch(data)) && data@ == f,
                    None => r is None,
                },
                RouterAction::ToWan(p) => r matches Some(Forward::Wan(q)) && q == p,
                RouterAction::Drop(_) => r is None,
            },
    {
        match action {
            RouterAction::ToLan(ethertype, dst, pkt) => match self.lookup(dst) {
                Some(mac) => Some(Forward::Switch(self.frame(mac, ethertype, pkt))),
                None => None,
            },
            RouterAction::ToWan(pkt) => Some(Forward::Wan(pkt)),
            RouterAction::Drop(_pkt) => None,
        }
    }

    /// Learns the sender of an ARP packet and answers it when it asks for
    /// the router's address.
    fn handle_arp(&mut self, pkt: Vec<u8>) -> (r: Result<RouterAction, ProtocolError>)
        requires
            old(self).wf(),
        ensures
            final(self).wf(),
            final(self).spec_mac() == old(self).spec_mac(),
            final(self).spec_network() == old(self).spec_network(),
            final(self).spec_port() == old(self).spec_port(),
            final(self).handlers() == old(self).handlers(),
            pkt@.len() < ARP_PACKET_SZ ==> (r matches Err(ProtocolError::NotEnoughData(got, exp))
                && got == pkt@.len() && exp == ARP_PACKET_SZ && final(self).table() == old(
                self,
            ).table()),
            pkt@.len() >= ARP_PACKET_SZ ==> ({
                let spa = be32_at(pkt@, 14);
                let tpa = be32_at(pkt@, 24);
                &&& final(self).table() == old(self).table().insert(spa, pkt@.subrange(8, 14))
                &&& if tpa == old(self).spec_ip() {
                    r matches Ok(RouterAction::ToLan(et, dst, bytes)) && et == EtherType::ARP
                        && dst == IpAddress::V4(spa) && exists|a: ArpPacket| #[trigger] arp_matches(a, pkt@)
                        && bytes@ == arp_bytes(arp_reply_of(a, old(self).spec_mac()))
                } else {
                    r matches Ok(RouterAction::Drop(p)) && p@ == pkt@
                }
            }),
    {
        let mut arp = ArpPacket::parse(pkt.as_slice())?;
        let ghost a0 = arp;
        self.arp.insert(arp.spa, arp.sha);
        assert(self.table() =~= old(self).table().insert(arp.spa, arp.sha@));
        if self.is_local(IpAddress::V4(arp.tpa)) {
            let mut rpkt = vec![0u8; ARP_PACKET_SZ];
            arp.to_reply(self.mac);
            arp.as_bytes(rpkt.as_mut_slice());
            assert(rpkt@ =~= rpkt@.subrange(0, 28));
            assert(arp_matches(a0, pkt@));
            Ok(RouterAction::ToLan(EtherType::ARP, IpAddress::V4(arp.tpa), rpkt))
        } else {
            Ok(RouterAction::Drop(pkt))
        }
    }

    /// Finds the handler of IPv4 protocol `proto`.
    fn find_handler(&self, proto: u8) -> (r: Option<usize>)
        requires
            handlers_wf(self.handlers()),
        ensures
            r matches Some(i) ==> proto_index(self.handlers(), proto) == Some(i as int),
            r is None ==> proto_index(self.handlers(), proto) is None,
    {
        find_proto(&self.ip4_handlers, proto)
    }

    /// Hands a packet addressed to the router to the handler of its
    /// protocol; an answer goes back to the sender in a new IPv4 packet.
    fn handle_local_ipv4(&mut self, pkt: Ipv4Packet) -> (r: RouterAction)
        requires
            old(self).wf(),
            pkt.wf(),
        ensures
            final(self).wf(),
            final(self).table() == old(self).table(),
            final(self).spec_mac() == old(self).spec_mac(),
            final(self).spec_network() == old(self).spec_network(),
            final(self).spec_port() == old(self).spec_port(),
            proto_index(old(self).handlers(), pkt.spec_header().protocol) is None ==> (r matches RouterAction::Drop(
                v,
            ) && v@.len() == 0),
            (r matches RouterAction::Drop(v) && v@.len() == 0) || (r matches RouterAction::ToLan(
                et,
                dst,
                bytes,
            ) && et == EtherType::IPv4 && dst == IpAddress::V4(pkt.spec_header().src) && 20
                <= bytes@.len() <= ROUTER_BUF_SZ && exists|h: Ipv4Header|
                is_reply_header(h, pkt.spec_header(), bytes@.len() - 20) && bytes@.subrange(0, 20)
                    == #[trigger] header_bytes(h, 0)),
            match proto_index(old(self).handlers(), pkt.spec_header().protocol) {
                None => final(self).handlers() == old(self).handlers(),
                Some(i) => final(self).handlers() == old(self).handlers().update(
                    i,
                    final(self).handlers()[i],
                ) && local_answer(old(self).handlers()[i], pkt, final(self).handlers()[i], r),
            },
    {
        let proto = pkt.protocol();
        match self.find_handler(proto) {
            None => RouterAction::Drop(Vec::new()),
            Some(i) => {
                let ghost hs0 = self.ip4_handlers@;
                let mut rpkt: Vec<u8> = vec![0u8; ROUTER_BUF_SZ];
                let mut h = self.ip4_handlers.remove(i);
                let ghost h0 = h;
                let ghost mut b1: Seq<u8> = Seq::empty();
                let res = {
                    let (head, body) = rpkt.as_mut_slice().split_at_mut(IPV4_HDR_SZ);
                    proof {
                        assert(body@ =~= answer_room());
                    }
                    let res = h.handle_protocol(&pkt, body);
                    proof {
                        b1 = body@;
                        assert(head@ == Seq::new(20, |k: int| 0u8)) by {
                            assert(head@ =~= Seq::new(20, |k: int| 0u8));
                        }
                    }
                    res
                };
                assert(rpkt@.subrange(20, ROUTER_BUF_SZ as int) =~= b1);
                assert(h0.handles(pkt, answer_room(), h, b1, res));
                self.ip4_handlers.insert(i, h);
                assert(self.ip4_handlers@ =~= hs0.update(i as int, h));
                assert forall|a: int, b: int|
                    0 <= a < self.handlers().len() && 0 <= b < self.handlers().len() && a != b
                        implies #[trigger] self.handlers()[a].spec_protocol()
                    != #[trigger] self.handlers()[b].spec_protocol() by {
                    assert(hs0[a].spec_protocol() != hs0[b].spec_protocol());
                }
                match res {
                    Ok(sz) => {
                        if sz == 0 {
                            RouterAction::Drop(Vec::new())
                        } else {
                            rpkt.truncate(IPV4_HDR_SZ + sz);
                            assert(rpkt@.subrange(20, 20 + sz) =~= b1.subrange(0, sz as int));
                            let ghost tos = rpkt@[1];
                            let hdr = pkt.reply(&rpkt.as_slice()[IPV4_HDR_SZ..rpkt.len()]);
                            let ghost before = rpkt@;
                            hdr.as_bytes(rpkt.as_mut_slice());
                            assert(rpkt@.subrange(20, 20 + sz) =~= b1.subrange(0, sz as int)) by {
                                assert(rpkt@.subrange(20, rpkt@.len() as int) == before.subrange(20, before.len() as int));
                            }
                            assert(is_reply_header(hdr, pkt.spec_header(), rpkt@.len() - 20));
                            RouterAction::ToLan(EtherType::IPv4, IpAddress::V4(hdr.dst), rpkt)
                        }
                    },
                    Err(_) => RouterAction::Drop(Vec::new()),
                }
            },
        }
    }

    /// Routes an IPv4 packet: packets for the router go to its protocol
    /// handlers, packets for the rest of its network to the local network,
    /// everything else upstream.
    pub fn route_ip4(&mut self, pkt: Ipv4Packet) -> (r: Result<RouterAction, ProtocolError>)
        requires
            old(self).wf(),
            pkt.wf(),
        ensures
            final(self).wf(),
            final(self).table() == old(self).table(),
            final(self).spec_mac() == old(self).spec_mac(),
            final(self).spec_network() == old(self).spec_network(),
            final(self).spec_port() == old(self).spec_port(),
            !old(self).spec_network().in_subnet(IpAddress::V4(pkt.spec_header().dst)) ==> (r matches Ok(
                RouterAction::ToWan(p),
            ) && p == pkt),
            old(self).spec_network().in_subnet(IpAddress::V4(pkt.spec_header().dst))
                && pkt.spec_header().dst != old(self).spec_ip() ==> (r matches Ok(
                RouterAction::ToLan(et, dst, bytes),
            ) && et == EtherType::IPv4 && dst == IpAddress::V4(pkt.spec_header().dst) && bytes@
                == pkt.spec_data()),
            pkt.spec_header().dst == old(self).spec_ip() ==> (r matches Ok(RouterAction::Drop(v))
                && v@.len() == 0) || (r matches Ok(RouterAction::ToLan(et, dst, bytes)) && et
                == EtherType::IPv4 && dst == IpAddress::V4(pkt.spec_header().src) && 20
                <= bytes@.len() <= ROUTER_BUF_SZ && exists|h: Ipv4Header|
                is_reply_header(h, pkt.spec_header(), bytes@.len() - 20) && bytes@.subrange(0, 20)
                    == #[trigger] header_bytes(h, 0)),
    {
        let dst = pkt.dest();
        if self.network.contains_in_subnet(IpAddress::V4(dst)) {
            if self.is_local(IpAddress::V4(dst)) {
                Ok(self.handle_local_ipv4(pkt))
            } else {
                Ok(RouterAction::ToLan(EtherType::IPv4, IpAddress::V4(dst), pkt.into_bytes()))
            }
        } else {
            proof {
                crate::netaddress::lemma_network_bounds_in_subnet(self.network);
            }
            Ok(RouterAction::ToWan(pkt))
        }
    }

    /// IPv6 is not routed: the packet is dropped.
    fn route_ip6(&self, pkt: Vec<u8>) -> (r: Result<RouterAction, ProtocolError>)
        ensures
            r matches Ok(RouterAction::Drop(p)) && p == pkt,
    {
        Ok(RouterAction::Drop(pkt))
    }

    /// Routes a packet from the local network by its type, and carries out
    /// the decision.
    pub fn route(&mut self, ethertype: EtherType, pkt: Vec<u8>) -> (r: Result<
        Option<Forward>,
        ProtocolError,
    >)
        requires
            old(self).wf(),
        ensures
            final(self).wf(),
            final(self).spec_mac() == old(self).spec_mac(),
            final(self).spec_network() == old(self).spec_network(),
            final(self).spec_port() == old(self).spec_port(),
            ethertype == EtherType::ARP ==> route_arp_outcome(*old(self), *final(self), pkt@, r),
            ethertype == EtherType::IPv4 ==> route_ipv4_outcome(*old(self), *final(self), pkt@, r),
            ethertype == EtherType::IPv6 ==> (r matches Ok(None) && final(self).table() == old(
                self,
            ).table()),
    {
        let ghost data = pkt@;
        let action = match ethertype {
            EtherType::ARP => self.handle_arp(pkt)?,
            EtherType::IPv4 => {
                let pkt = Ipv4Packet::parse(pkt)?;
                self.route_ip4(pkt)?
            },
            EtherType::IPv6 => self.route_ip6(pkt)?,
        };
        Ok(self.handle_action(action))
    }

    /// Handles a message to the router: frames from the switch are routed
    /// by their type, packets from the WAN as IPv4.
    pub fn handle_message(&mut self, msg: RouterMsg) -> (r: Result<Option<Forward>, ProtocolError>)
        requires
            old(self).wf(),
            msg matches RouterMsg::Wan4(p) ==> p.wf(),
        ensures
            final(self).wf(),
            final(self).spec_mac() == old(self).spec_mac(),
            final(self).spec_network() == old(self).spec_network(),
            final(self).spec_port() == old(self).spec_port(),
            match msg {
                RouterMsg::Lan(p) => {
                    &&& p.frame.ethertype == EtherType::ARP ==> route_arp_outcome(
                        *old(self),
                        *final(self),
                        p.payload@,
                        r,
                    )
                    &&& p.frame.ethertype == EtherType::IPv4 ==> route_ipv4_outcome(
                        *old(self),
                        *final(self),
                        p.payload@,
                        r,
                    )
                    &&& p.frame.ethertype == EtherType::IPv6 ==> (r matches Ok(None)
                        && final(self).table() == old(self).table())
                },
                RouterMsg::Wan4(p) => final(self).table() == old(self).table() && ipv4_outcome(
                    *old(self),
                    p.spec_header(),
                    p,
                    r,
                ),
            },
    {
        match msg {
            RouterMsg::Lan(pkt) => self.route(pkt.frame.ethertype, pkt.payload),
            RouterMsg::Wan4(pkt) => {
                let action = self.route_ip4(pkt)?;
                Ok(self.handle_action(action))
            },
        }
    }
}

/// The outcome of routing the ARP packet `data` with the router `r0`
/// (becoming `r1`): its sender is learned, and a request for the router's
/// address gets a reply in a frame to the sender.
pub open spec fn route_arp_outcome<H: ProtocolHandler>(
    r0: Router<H>,
    r1: Router<H>,
    data: Seq<u8>,
    r: Result<Option<Forward>, ProtocolError>,
) -> bool {
    if data.len() < ARP_PACKET_SZ {
        (r matches Err(ProtocolError::NotEnoughData(got, exp)) && got == data.len() && exp
            == ARP_PACKET_SZ) && r1.table() == r0.table()
    } else {
        &&& r1.table() == r0.table().insert(be32_at(data, 14), data.subrange(8, 14))
        &&& if be32_at(data, 24) == r0.spec_ip() {
            r matches Ok(Some(Forward::Switch(frame))) && exists|a: ArpPacket|
                #[trigger] arp_matches(a, data) && frame@ == frame_to(
                    data.subrange(8, 14),
                    r0.spec_mac()@,
                    EtherType::ARP,
                    arp_bytes(arp_reply_of(a, r0.spec_mac())),
                )
        } else {
            r matches Ok(None)
        }
    }
}

/// The answer buffer a protocol handler is given: all zeros.
pub open spec fn answer_room() -> Seq<u8> {
    Seq::new(PROTOCOL_BUF_LEN as nat, |k: int| 0u8)
}

/// The protocol handler `h0` handled `pkt` into an empty answer buffer and
/// became `h1`, and the router acted on its answer as `r`: a non-empty
/// answer goes to the sender behind a new IPv4 header, anything else is
/// dropped.
pub open spec fn local_answer<H: ProtocolHandler>(h0: H, pkt: Ipv4Packet, h1: H, r: RouterAction) -> bool {
    exists|b1: Seq<u8>, res: Result<usize, ProtocolError>|
        #[trigger] h0.handles(pkt, answer_room(), h1, b1, res)
            && acted_on(res, b1, r)
}

/// The router's action `r` on the answer `res` of a protocol handler that
/// wrote `b1`: the `n` bytes of a non-empty answer follow the IPv4 header,
/// anything else is dropped.
pub open spec fn acted_on(res: Result<usize, ProtocolError>, b1: Seq<u8>, r: RouterAction) -> bool {
    match res {
        Ok(n) => if n > 0 {
            r matches RouterAction::ToLan(_, _, bytes) && bytes@.len() == IPV4_HDR_SZ + n
                && bytes@.subrange(IPV4_HDR_SZ as int, IPV4_HDR_SZ + n) == b1.subrange(0, n as int)
        } else {
            r matches RouterAction::Drop(v) && v@.len() == 0
        },
        Err(_) => r matches RouterAction::Drop(v) && v@.len() == 0,
    }
}

/// The outcome of routing the parsed IPv4 packet `p` (header `h`) with the
/// router `r0`: upstream when outside its network, to the device learned
/// for its destination in the network, or the answer of a protocol handler
/// when addressed to the router.
pub open spec fn ipv4_outcome<H: ProtocolHandler>(
    r0: Router<H>,
    h: Ipv4Header,
    p: Ipv4Packet,
    r: Result<Option<Forward>, ProtocolError>,
) -> bool {
    if !r0.spec_network().in_subnet(IpAddress::V4(h.dst)) {
        r matches Ok(Some(Forward::Wan(q))) && q == p
    } else if h.dst != r0.spec_ip() {
        match lan_frame(r0.table(), r0.spec_mac()@, EtherType::IPv4, IpAddress::V4(h.dst), p.spec_data()) {
            Some(f) => r matches Ok(Some(Forward::Switch(frame))) && frame@ == f,
            None => r matches Ok(None),
        }
    } else {
        r matches Ok(None) || (r matches Ok(Some(Forward::Switch(frame))) && r0.table().contains_key(
            h.src,
        ) && exists|bytes: Seq<u8>, hr: Ipv4Header|
            is_reply_header(hr, h, bytes.len() - 20) && 20 <= bytes.len() <= ROUTER_BUF_SZ
                && bytes.subrange(0, 20) == #[trigger] header_bytes(hr, 0) && frame@ == #[trigger] frame_to(
                r0.table()[h.src],
                r0.spec_mac()@,
                EtherType::IPv4,
                bytes,
            ))
    }
}

/// The outcome of routing the IPv4 packet `data` from the local network.
pub open spec fn route_ipv4_outcome<H: ProtocolHandler>(
    r0: Router<H>,
    r1: Router<H>,
    data: Seq<u8>,
    r: Result<Option<Forward>, ProtocolError>,
) -> bool {
    &&& r1.table() == r0.table()
    &&& data.len() == 0 ==> (r matches Err(ProtocolError::NotEnoughData(got, exp)) && got == 0 && exp
        == 20)
    &&& data.len() > 0 && data.len() < (data[0] & 0x0F) as int * 4 ==> (r matches Err(
        ProtocolError::NotEnoughData(got, exp),
    ) && got == data.len() && exp == (data[0] & 0x0F) as int * 4)
    &&& data.len() > 0 && data.len() >= (data[0] & 0x0F) as int * 4 && data.len() < 20 ==> (
    r matches Err(ProtocolError::NotEnoughData(got, exp)) && got == data.len() && exp == 20)
    &&& data.len() >= 20 && data.len() >= (data[0] & 0x0F) as int * 4 ==> exists|p: Ipv4Packet|
        #[trigger] p.spec_data() == data && p.spec_header() == header_of(data) && ipv4_outcome(
            r0,
            header_of(data),
            p,
            r,
        )
}


/// Once the router has routed an ARP packet from the local network, an
/// IPv4 packet for the sender's address, inside the router's network and
/// not for the router itself, goes to the switch in a frame addressed to
/// the hardware address the ARP packet gave.
pub proof fn lemma_arp_learning<H: ProtocolHandler>(
    r0: Router<H>,
    r1: Router<H>,
    arp: Seq<u8>,
    out1: Result<Option<Forward>, ProtocolError>,
    h: Ipv4Header,
    p: Ipv4Packet,
    out2: Result<Option<Forward>, ProtocolError>,
)
    requires
        arp.len() >= ARP_PACKET_SZ,
        route_arp_outcome(r0, r1, arp, out1),
        h.dst == be32_at(arp, 14),
        r1.spec_network().in_subnet(IpAddress::V4(h.dst)),
        h.dst != r1.spec_ip(),
        ipv4_outcome(r1, h, p, out2),
    ensures
        out2 matches Ok(Some(Forward::Switch(f))) && f@ == frame_to(
            arp.subrange(8, 14),
            r1.spec_mac()@,
            EtherType::IPv4,
            p.spec_data(),
        ),
{
    assert(r1.table().contains_key(h.dst));
    assert(r1.table()[h.dst] == arp.subrange(8, 14));
}

/// The handlers once `h` is registered: it replaces the handler of its
/// protocol, or is added after the others.
pub open spec fn registered_proto<H: ProtocolHandler>(hs: Seq<H>, h: H) -> Seq<H> {
    match proto_index(hs, h.spec_protocol()) {
        Some(i) => hs.update(i, h),
        None => hs.push(h),
    }
}

/// Collects the protocol handlers of a router before it starts.
pub struct RouterBuilder<H> {
    /// Handlers of IPv4 protocols
    ip4_handlers: Vec<H>,
}

impl<H: ProtocolHandler> RouterBuilder<H> {
    /// The registered handlers.
    pub closed spec fn handlers(&self) -> Seq<H> {
        self.ip4_handlers@
    }

    /// Registers a protocol handler: it handles the IPv4 protocol it
    /// reports, replacing any handler registered for that protocol before.
    pub fn register_proto_handler(self, handler: H) -> (b: Self)
        requires
            handlers_wf(self.handlers()),
            handler.inv(),
        ensures
            handlers_wf(b.handlers()),
            b.handlers() == registered_proto(self.handlers(), handler),
    {
        let mut b = self;
        let proto = handler.protocol();
        match find_proto(&b.ip4_handlers, proto) {
            Some(i) => {
                b.ip4_handlers.set(i, handler);
            },
            None => {
                b.ip4_handlers.push(handler);
            },
        }
        assert forall|x: int, y: int|
            0 <= x < b.handlers().len() && 0 <= y < b.handlers().len() && x != y implies #[trigger] b.handlers()[x].spec_protocol()
            != #[trigger] b.handlers()[y].spec_protocol() by {
            if x < self.handlers().len() && y < self.handlers().len() {
                assert(self.handlers()[x].spec_protocol() != self.handlers()[y].spec_protocol());
            }
        }
        b
    }

    /// Creates the router of the /24 network of `ip4`, connected to the
    /// switch at `port`, with a random hardware address (prefix 52:54:00)
    /// and nothing learned yet.
    pub fn build(self, ip4: u32, port: usize) -> (r: Router<H>)
        requires
            handlers_wf(self.handlers()),
        ensures
            r.wf(),
            r.spec_network().spec_ip() == IpAddress::V4(ip4),
            r.spec_network().spec_prefix() == 24,
            r.spec_port() == port,
            r.handlers() == self.handlers(),
            r.table() == Map::<u32, Seq<u8>>::empty(),
            r.spec_mac()@[0] == 0x52 && r.spec_mac()@[1] == 0x54 && r.spec_mac()@[2] == 0x00,
    {
        let network = NetworkAddress::new(IpAddress::V4(ip4), 24);
        let r = Router {
            arp: HashMap::new(),
            port,
            mac: MacAddress::generate(),
            network,
            ip4_handlers: self.ip4_handlers,
        };
        assert(r.table() =~= Map::<u32, Seq<u8>>::empty());
        r
    }
}

impl<H: ProtocolHandler> Router<H> {
    /// Starts collecting the handlers of a new router.
    pub fn builder() -> (b: RouterBuilder<H>)
        ensures
            b.handlers() == Seq::<H>::empty(),
            handlers_wf(b.handlers()),
    {
        RouterBuilder { ip4_handlers: Vec::new() }
    }
}

} // verus!
