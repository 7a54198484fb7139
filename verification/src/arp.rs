//! ARP packets (Ethernet hardware addresses, IPv4 protocol addresses).

use vstd::prelude::*;

use crate::bytes::{be16_bytes, copy_into};
use crate::error::ProtocolError;
use crate::ipv4::{be16_at, be32_at, octets_of};
use crate::types::{lemma_mac_len, MacAddress};

verus! {

broadcast use lemma_mac_len;

/// Size of an ARP packet for Ethernet and IPv4.
pub const ARP_PACKET_SZ: usize = 28;

/// ARP operation: request.
pub const ARP_REQUEST: u16 = 1;

/// ARP operation: reply.
pub const ARP_REPLY: u16 = 2;

/// An ARP packet.
#[derive(Clone, Copy, Debug)]
pub struct ArpPacket {
    /// Hardware type
    pub htype: u16,
    /// Protocol type
    pub ptype: u16,
    /// Hardware address length
    pub hlen: u8,
    /// Protocol address length
    pub plen: u8,
    /// Operation
    pub op: u16,
    /// Sender hardware address
    pub sha: MacAddress,
    /// Sender protocol address
    pub spa: u32,
    /// Target hardware address
    pub tha: MacAddress,
    /// Target protocol address
    pub tpa: u32,
}

/// The 28 bytes of an ARP packet, multi-byte fields big-endian.
pub open spec fn arp_bytes(a: ArpPacket) -> Seq<u8> {
    be16_bytes(a.htype) + be16_bytes(a.ptype) + seq![a.hlen, a.plen] + be16_bytes(a.op) + a.sha@
        + octets_of(a.spa) + a.tha@ + octets_of(a.tpa)
}

/// `a` is the packet written in the first 28 bytes of `b`.
pub open spec fn arp_matches(a: ArpPacket, b: Seq<u8>) -> bool {
    &&& b.len() >= 28
    &&& a.htype == be16_at(b, 0)
    &&& a.ptype == be16_at(b, 2)
    &&& a.hlen == b[4]
    &&& a.plen == b[5]
    &&& a.op == be16_at(b, 6)
    &&& a.sha@ == b.subrange(8, 14)
    &&& a.spa == be32_at(b, 14)
    &&& a.tha@ == b.subrange(18, 24)
    &&& a.tpa == be32_at(b, 24)
}

/// The reply to the request `a` from the owner of `mac`: the operation is
/// a reply, the sender becomes the target, and `mac` with the requested
/// address becomes the sender.
pub open spec fn arp_reply_of(a: ArpPacket, mac: MacAddress) -> ArpPacket {
    ArpPacket { op: ARP_REPLY, sha: mac, spa: a.tpa, tha: a.sha, tpa: a.spa, ..a }
}

fn be32_bytes(x: u32) -> (b: [u8; 4])
    ensures
        b@ == octets_of(x),
{
    let b = [(x / 0x100_0000) as u8, ((x / 0x1_0000) % 256) as u8, ((x / 0x100) % 256) as u8, (x
        % 256) as u8];
    assert(b@ =~= octets_of(x));
    b
}

impl ArpPacket {
    /// Parses an ARP packet from the first 28 bytes of `pkt`.
    pub fn parse(pkt: &[u8]) -> (r: Result<ArpPacket, ProtocolError>)
        ensures
            pkt@.len() < 28 ==> (r matches Err(ProtocolError::NotEnoughData(got, exp)) && got
                == pkt@.len() && exp == 28),
            pkt@.len() >= 28 ==> (r matches Ok(a) && arp_matches(a, pkt@)),
    {
        if pkt.len() < ARP_PACKET_SZ {
            return Err(ProtocolError::NotEnoughData(pkt.len(), ARP_PACKET_SZ));
        }
        let sha = MacAddress::parse(&pkt[8..14]);
        let tha = MacAddress::parse(&pkt[18..24]);
        match (sha, tha) {
            (Ok(sha), Ok(tha)) => {
                assert(pkt@.subrange(8, 14) =~= pkt@.subrange(8, 14).subrange(0, 6));
                assert(pkt@.subrange(18, 24) =~= pkt@.subrange(18, 24).subrange(0, 6));
                Ok(ArpPacket {
                    htype: (pkt[0] as u16) * 256 + pkt[1] as u16,
                    ptype: (pkt[2] as u16) * 256 + pkt[3] as u16,
                    hlen: pkt[4],
                    plen: pkt[5],
                    op: (pkt[6] as u16) * 256 + pkt[7] as u16,
                    sha,
                    spa: (pkt[14] as u32) * 0x100_0000 + (pkt[15] as u32) * 0x1_0000 + (pkt[16] as u32)
                        * 0x100 + pkt[17] as u32,
                    tha,
                    tpa: (pkt[24] as u32) * 0x100_0000 + (pkt[25] as u32) * 0x1_0000 + (pkt[26] as u32)
                        * 0x100 + pkt[27] as u32,
                })
            },
            _ => Err(ProtocolError::NotEnoughData(pkt.len(), ARP_PACKET_SZ)),
        }
    }

    /// Size, in bytes, of the packet.
    pub fn size(&self) -> (n: usize)
        ensures
            n == ARP_PACKET_SZ,
    {
        ARP_PACKET_SZ
    }

    /// Turns this request into the reply of the owner of `mac`.
    pub fn to_reply(&mut self, mac: MacAddress)
        ensures
            *final(self) == arp_reply_of(*old(self), mac),
    {
        let spa = self.spa;
        let tpa = self.tpa;
        self.op = ARP_REPLY;
        self.tha = self.sha;
        self.tpa = spa;
        self.sha = mac;
        self.spa = tpa;
    }

    /// Writes the packet into the first 28 bytes of `buf`.
    pub fn as_bytes(&self, buf: &mut [u8])
        requires
            old(buf)@.len() >= 28,
        ensures
            final(buf)@.len() == old(buf)@.len(),
            final(buf)@.subrange(0, 28) == arp_bytes(*self),
            final(buf)@.subrange(28, old(buf)@.len() as int) == old(buf)@.subrange(
                28,
                old(buf)@.len() as int,
            ),
    {
        buf[0] = (self.htype / 256) as u8;
        buf[1] = (self.htype % 256) as u8;
        buf[2] = (self.ptype / 256) as u8;
        buf[3] = (self.ptype % 256) as u8;
        buf[4] = self.hlen;
        buf[5] = self.plen;
        buf[6] = (self.op / 256) as u8;
        buf[7] = (self.op % 256) as u8;
        copy_into(buf, 8, self.sha.as_bytes());
        let spa = be32_bytes(self.spa);
        copy_into(buf, 14, spa.as_slice());
        copy_into(buf, 18, self.tha.as_bytes());
        let tpa = be32_bytes(self.tpa);
        copy_into(buf, 24, tpa.as_slice());
        assert(buf@.subrange(0, 28) =~= arp_bytes(*self)) by {
            assert(buf@.subrange(8, 14) == self.sha@);
            assert(buf@.subrange(14, 18) == octets_of(self.spa));
            assert(buf@.subrange(18, 24) == self.tha@);
            assert(buf@.subrange(24, 28) == octets_of(self.tpa));
            assert forall|k: int| 0 <= k < 28 implies buf@.subrange(0, 28)[k] == arp_bytes(*self)[k] by {
                if 8 <= k < 14 {
                    assert(buf@[k] == buf@.subrange(8, 14)[k - 8]);
                } else if 14 <= k < 18 {
                    assert(buf@[k] == buf@.subrange(14, 18)[k - 14]);
                } else if 18 <= k < 24 {
                    assert(buf@[k] == buf@.subrange(18, 24)[k - 18]);
                } else if 24 <= k < 28 {
                    assert(buf@[k] == buf@.subrange(24, 28)[k - 24]);
                }
            }
        }
        assert(buf@.subrange(28, buf@.len() as int) =~= old(buf)@.subrange(
            28,
            old(buf)@.len() as int,
        ));
    }
}

} // verus!
