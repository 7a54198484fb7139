//! An in-memory device of the router that answers the packets sent to one
//! IPv4 address.

use vstd::prelude::*;

use crate::bytes::copy_into;
use crate::checksum::{
    checksum, lemma_checksum_fits, lemma_checksum_verifies, ones_fold, spec_checksum, word_at,
    word_count, word_sum, word_sum_upto,
};
use crate::ipv4::{header_bytes, Ipv4Header, NET_PROTOCOL_ICMP};
use crate::netaddress::IpAddress;
use crate::arp::{arp_bytes, arp_reply_of, ArpPacket};
use crate::frame::{frame_bytes, EthernetFrame};
use crate::types::{EtherType, MacAddress};

verus! {

/// Largest packet a local device builds.
pub const MAX_MTU: usize = 1560;

/// Length of the IPv4 header of an answer.
pub const L3_HEADER_SZ: usize = 20;

/// ICMP message type of an echo request.
pub const ICMP_ECHO_REQUEST: u8 = 8;

/// A buffer used to construct packets: a layer 2 (Ethernet) header of 14
/// bytes followed by the layer 3 packet.
#[derive(Debug)]
pub struct PacketBuffer {
    bytes: Vec<u8>,
}

impl PacketBuffer {
    /// The buffer's bytes.
    pub closed spec fn spec_bytes(&self) -> Seq<u8> {
        self.bytes@
    }

    /// Creates a new, zeroed buffer of `MAX_MTU` bytes.
    pub fn new() -> (b: PacketBuffer)
        ensures
            b.spec_bytes() == Seq::new(MAX_MTU as nat, |i: int| 0u8),
    {
        let b = PacketBuffer { bytes: vec![0u8; MAX_MTU] };
        assert(b.spec_bytes() =~= Seq::new(MAX_MTU as nat, |i: int| 0u8));
        b
    }

    /// Returns the slice of data representing the ethernet frame / layer 2 header.
    pub fn l2(&mut self) -> (r: &mut [u8])
        requires
            old(self).spec_bytes().len() >= 14,
        ensures
            r@ == old(self).spec_bytes().subrange(0, 14),
            final(self).spec_bytes() == final(r)@ + old(self).spec_bytes().subrange(
                14,
                old(self).spec_bytes().len() as int,
            ),
    {
        let (head, _rest) = self.bytes.as_mut_slice().split_at_mut(14);
        head
    }

    /// Returns a slice representing the layer 3 (ip4/ip6/etc.) header and what follows it.
    pub fn l3(&mut self) -> (r: &mut [u8])
        requires
            old(self).spec_bytes().len() >= 14,
        ensures
            r@ == old(self).spec_bytes().subrange(14, old(self).spec_bytes().len() as int),
            final(self).spec_bytes() == old(self).spec_bytes().subrange(0, 14) + final(r)@,
    {
        let (_head, rest) = self.bytes.as_mut_slice().split_at_mut(14);
        rest
    }
}

/// What a local device does with a packet.
#[derive(Debug)]
pub enum LocalAction {
    /// Answer the address with this IPv4 packet.
    Respond(u32, Vec<u8>),
    /// Drop the packet (here, its payload).
    Drop(Vec<u8>),
}

/// The buffer `buf` once an ICMP echo reply to `req` is written into it:
/// bytes 4 and on of the request copied, then the checksum of the whole
/// buffer stored in bytes 2 and 3.
pub open spec fn echo_filled(buf: Seq<u8>, req: Seq<u8>) -> Seq<u8> {
    let mid = buf.subrange(0, 4) + req.subrange(4, req.len() as int) + buf.subrange(
        req.len() as int,
        buf.len() as int,
    );
    let c = spec_checksum(mid);
    mid.update(2, (c / 256) as u8).update(3, (c % 256) as u8)
}

/// The ICMP echo reply to the echo request `req`, as built in a zeroed
/// buffer of the room left after the IPv4 header.
pub open spec fn echo_reply(req: Seq<u8>) -> Seq<u8> {
    echo_filled(Seq::new((MAX_MTU - L3_HEADER_SZ) as nat, |i: int| 0u8), req).subrange(
        0,
        req.len() as int,
    )
}

/// Zero bytes after position `n` add nothing to the word sum: the words of
/// the first `n` bytes sum as the whole buffer does.
proof fn lemma_zero_tail_sum(d: Seq<u8>, n: int, k: int)
    requires
        0 <= n <= d.len(),
        forall|i: int| n <= i < d.len() ==> d[i] == 0,
        0 <= k <= word_count(d),
    ensures
        word_sum_upto(d, k) == word_sum_upto(d.subrange(0, n), if k < word_count(d.subrange(0, n)) { k } else { word_count(d.subrange(0, n)) }),
    decreases k,
{
    let sub = d.subrange(0, n);
    if k > 0 {
        lemma_zero_tail_sum(d, n, k - 1);
        if k - 1 < word_count(sub) {
            assert(word_at(d, k - 1) == word_at(sub, k - 1));
        } else {
            assert(word_at(d, k - 1) == 0);
        }
    }
}

/// The ICMP echo reply to `req` passes the receiver's checksum test: its
/// checksum is zero and the one's-complement sum of its words is 0xFFFF.
pub proof fn lemma_echo_reply_verifies(req: Seq<u8>)
    requires
        4 <= req.len() <= MAX_MTU - L3_HEADER_SZ,
    ensures
        spec_checksum(echo_reply(req)) == 0,
        ones_fold(word_sum(echo_reply(req))) == 0xFFFF,
{
    let buf = Seq::new((MAX_MTU - L3_HEADER_SZ) as nat, |i: int| 0u8);
    let mid = buf.subrange(0, 4) + req.subrange(4, req.len() as int) + buf.subrange(
        req.len() as int,
        buf.len() as int,
    );
    assert(mid[2] == 0 && mid[3] == 0);
    lemma_checksum_verifies(mid, 1);
    let full = echo_filled(buf, req);
    let n = req.len() as int;
    assert forall|i: int| n <= i < full.len() implies full[i] == 0 by {
        assert(full[i] == mid[i]);
    }
    lemma_zero_tail_sum(full, n, word_count(full));
    assert(word_count(full.subrange(0, n)) <= word_count(full));
    assert(echo_reply(req) == full.subrange(0, n));
}

/// `h` is a header generated to reply, with a payload of `len` bytes, to a
/// packet with header `req`.
pub open spec fn is_reply_header(h: Ipv4Header, req: Ipv4Header, len: int) -> bool {
    &&& h.version == 4
    &&& h.ihl == 5
    &&& h.length == len + 20
    &&& h.flags == 2
    &&& h.frag_offset == 0
    &&& h.ttl == 64
    &&& h.protocol == req.protocol
    &&& h.checksum == 0
    &&& h.src == req.dst
    &&& h.dst == req.src
}

/// Represents an `in-memory` local device to respond to packets sent to a
/// specific IP address.
#[derive(Debug)]
pub struct LocalDevice {
    /// IPv4 address to assign to this device
    ip4: u32,
    /// MAC address to assign to this device
    mac: MacAddress,
    /// Buffer used to construct packets
    pktbuf: PacketBuffer,
}

impl LocalDevice {
    /// The device's IPv4 address.
    pub closed spec fn spec_ip4(&self) -> u32 {
        self.ip4
    }

    /// The device's MAC address.
    pub closed spec fn spec_mac(&self) -> MacAddress {
        self.mac
    }

    /// The bytes of the device's packet buffer.
    pub closed spec fn spec_buffer(&self) -> Seq<u8> {
        self.pktbuf.spec_bytes()
    }

    /// The device's invariant: its packet buffer holds a full frame.
    pub closed spec fn wf(&self) -> bool {
        self.pktbuf.spec_bytes().len() == MAX_MTU
    }

    /// Creates a new `LocalDevice` with the provided IPv4 address and a
    /// random MAC address (prefix 52:54:00).
    ///
    /// ### Arguments
    /// * `ip4` - IPv4 address to assign to this device
    pub fn new(ip4: u32) -> (d: LocalDevice)
        ensures
            d.wf(),
            d.spec_ip4() == ip4,
            d.spec_mac()@[0] == 0x52 && d.spec_mac()@[1] == 0x54 && d.spec_mac()@[2] == 0x00,
    {
        let mac = MacAddress::generate();
        LocalDevice { ip4, mac, pktbuf: PacketBuffer::new() }
    }

    /// Returns true if a packet is destined for this local device.
    pub fn can_handle(&self, dst: IpAddress) -> (r: bool)
        ensures
            r == (dst == IpAddress::V4(self.spec_ip4())),
    {
        match dst {
            IpAddress::V4(d) => d == self.ip4,
            IpAddress::V6(_) => false,
        }
    }

    /// The frame answering the ARP request `arp`: an Ethernet header from
    /// this device to the requester, followed by the ARP reply. The frame is
    /// also left at the start of the device's packet buffer.
    pub fn handle_arp_request(&mut self, arp: ArpPacket) -> (r: Vec<u8>)
        requires
            old(self).wf(),
        ensures
            final(self).wf(),
            r@ == frame_bytes(EthernetFrame { dst: arp.sha, src: old(self).spec_mac(), ethertype: EtherType::ARP })
                + arp_bytes(arp_reply_of(arp, old(self).spec_mac())),
            final(self).spec_buffer() == r@ + old(self).spec_buffer().subrange(42, MAX_MTU as int),
            final(self).spec_ip4() == old(self).spec_ip4(),
            final(self).spec_mac() == old(self).spec_mac(),
    {
        let mut arp = arp;
        arp.to_reply(self.mac);
        let ef = EthernetFrame::new(arp.sha, arp.tha, EtherType::ARP);
        let mut rpkt: Vec<u8> = vec![0u8; 42];
        {
            let (head, rest) = rpkt.as_mut_slice().split_at_mut(14);
            ef.as_bytes(head);
            arp.as_bytes(rest);
        }
        assert(rpkt@ =~= frame_bytes(ef) + arp_bytes(arp));
        let ghost buf0 = self.pktbuf.spec_bytes();
        {
            let l2 = self.pktbuf.l2();
            ef.as_bytes(l2);
        }
        let ghost buf1 = self.pktbuf.spec_bytes();
        assert(buf1 =~= frame_bytes(ef) + buf0.subrange(14, MAX_MTU as int));
        {
            let l3 = self.pktbuf.l3();
            arp.as_bytes(l3);
        }
        let ghost buf2 = self.pktbuf.spec_bytes();
        assert(buf2.len() == MAX_MTU);
        assert(buf2.subrange(0, 14) =~= frame_bytes(ef));
        assert(buf2.subrange(14, MAX_MTU as int).subrange(0, 28) =~= arp_bytes(arp));
        assert(buf1.subrange(14, MAX_MTU as int).subrange(28, MAX_MTU - 14) =~= buf0.subrange(42, MAX_MTU as int));
        assert(buf2.subrange(14, MAX_MTU as int).subrange(28, MAX_MTU - 14) =~= buf0.subrange(42, MAX_MTU as int));
        assert forall|k: int| 0 <= k < MAX_MTU implies buf2[k] == (rpkt@ + buf0.subrange(42, MAX_MTU as int))[k] by {
            if k < 14 {
                assert(buf2[k] == buf2.subrange(0, 14)[k]);
            } else if k < 42 {
                assert(buf2[k] == buf2.subrange(14, MAX_MTU as int).subrange(0, 28)[k - 14]);
            } else {
                assert(buf2[k] == buf2.subrange(14, MAX_MTU as int).subrange(28, MAX_MTU - 14)[k - 42]);
            }
        }
        assert(buf2 =~= rpkt@ + buf0.subrange(42, MAX_MTU as int));
        rpkt
    }

    /// Handles an ip4 packet sent to this device: answers an ICMP echo
    /// request with an echo reply, drops anything else.
    pub fn handle_ip4_packet(&self, iphdr: Ipv4Header, payload: Vec<u8>) -> (r: LocalAction)
        requires
            iphdr.protocol == NET_PROTOCOL_ICMP ==> payload@.len() >= 1,
            iphdr.protocol == NET_PROTOCOL_ICMP && payload@[0] == ICMP_ECHO_REQUEST ==> 4
                <= payload@.len() <= MAX_MTU - L3_HEADER_SZ,
        ensures
            iphdr.protocol == NET_PROTOCOL_ICMP && payload@[0] == ICMP_ECHO_REQUEST ==> (r matches LocalAction::Respond(
                dst,
                pkt,
            ) && dst == iphdr.src && pkt@.len() == L3_HEADER_SZ + payload@.len() && pkt@.subrange(
                20,
                pkt@.len() as int,
            ) == echo_reply(payload@) && exists|h: Ipv4Header|
                is_reply_header(h, iphdr, payload@.len() as int) && pkt@.subrange(0, 20)
                    == #[trigger] header_bytes(h, 0)),
            !(iphdr.protocol == NET_PROTOCOL_ICMP && payload@[0] == ICMP_ECHO_REQUEST) ==> (r matches LocalAction::Drop(
                p,
            ) && p@ == payload@),
    {
        if iphdr.protocol == NET_PROTOCOL_ICMP && payload[0] == ICMP_ECHO_REQUEST {
            let mut rpkt: Vec<u8> = vec![0u8; MAX_MTU];
            let ghost zeros = Seq::new((MAX_MTU - L3_HEADER_SZ) as nat, |i: int| 0u8);
            let len = {
                let (_head, body) = rpkt.as_mut_slice().split_at_mut(L3_HEADER_SZ);
                assert(body@ =~= zeros);
                self.handle_echo_request(payload.as_slice(), body)
            };
            // drop unneeded bytes
            rpkt.truncate(L3_HEADER_SZ + len);
            assert(rpkt@.subrange(20, rpkt@.len() as int) =~= echo_reply(payload@));
            // build the ipv4 header
            let hdr = iphdr.gen_reply(&rpkt.as_slice()[L3_HEADER_SZ..rpkt.len()]);
            let ghost body = rpkt@.subrange(20, rpkt@.len() as int);
            hdr.as_bytes(rpkt.as_mut_slice());
            assert(rpkt@.subrange(0, 20) == header_bytes(hdr, 0));
            assert(is_reply_header(hdr, iphdr, payload@.len() as int));
            LocalAction::Respond(hdr.dst, rpkt)
        } else {
            LocalAction::Drop(payload)
        }
    }

    /// Writes the ICMP echo reply to the echo request `pkt` into `rpkt`
    /// (whose first four bytes are expected to be zero) and returns its
    /// length.
    fn handle_echo_request(&self, pkt: &[u8], rpkt: &mut [u8]) -> (n: usize)
        requires
            4 <= pkt@.len() <= old(rpkt)@.len() <= 0x20000,
        ensures
            n == pkt@.len(),
            final(rpkt)@ == echo_filled(old(rpkt)@, pkt@),
    {
        write_echo_reply(pkt, rpkt)
    }
}

/// Writes the ICMP echo reply to the echo request `pkt` into `rpkt`: bytes
/// 4 and on of the request copied, then the checksum of the whole buffer in
/// bytes 2 and 3 (bytes 0 and 1, the type and code of the reply, are left
/// as they are); returns the length of the reply.
pub fn write_echo_reply(pkt: &[u8], rpkt: &mut [u8]) -> (n: usize)
    requires
        4 <= pkt@.len() <= old(rpkt)@.len() <= 0x20000,
    ensures
        n == pkt@.len(),
        final(rpkt)@ == echo_filled(old(rpkt)@, pkt@),
{
    let len = pkt.len();
    copy_into(rpkt, 4, &pkt[4..len]);
    let ghost buf0 = old(rpkt)@;
    assert(rpkt@ =~= buf0.subrange(0, 4) + pkt@.subrange(4, len as int) + buf0.subrange(
        len as int,
        buf0.len() as int,
    ));
    proof {
        lemma_checksum_fits(rpkt@);
    }
    let csum = checksum(rpkt);
    rpkt[2] = (csum / 256) as u8;
    rpkt[3] = (csum % 256) as u8;
    len
}

} // verus!
