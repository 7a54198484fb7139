//! Ethernet (layer 2) frame headers.

use vstd::prelude::*;

use crate::error::ProtocolError;
use crate::types::{be16, ethertype_code, ethertype_of, lemma_mac_len, EtherType, MacAddress};

verus! {

broadcast use lemma_mac_len;

/// Size, in bytes, of an Ethernet header: destination, source, ethertype.
pub const ETHERNET_HDR_SZ: usize = 14;

/// An Ethernet frame header.
#[derive(Clone, Copy, Debug)]
pub struct EthernetFrame {
    /// Destination hardware address
    pub dst: MacAddress,
    /// Source hardware address
    pub src: MacAddress,
    /// Type of the payload
    pub ethertype: EtherType,
}

/// An Ethernet frame header together with its payload.
#[derive(Debug)]
pub struct EthernetPacket {
    pub frame: EthernetFrame,
    pub payload: Vec<u8>,
}

/// The 14 header bytes of a frame: destination, source, big-endian ethertype.
pub open spec fn frame_bytes(f: EthernetFrame) -> Seq<u8> {
    f.dst@ + f.src@ + seq![
        (ethertype_code(f.ethertype) / 256) as u8,
        (ethertype_code(f.ethertype) % 256) as u8,
    ]
}

/// `f` is the header written in the first 14 bytes of `b`.
pub open spec fn frame_matches(f: EthernetFrame, b: Seq<u8>) -> bool {
    &&& b.len() >= 14
    &&& f.dst@ == b.subrange(0, 6)
    &&& f.src@ == b.subrange(6, 12)
    &&& ethertype_code(f.ethertype) == be16(b[12], b[13])
}

impl EthernetFrame {
    /// Creates a frame header sent by `src` to `dst`.
    pub fn new(src: MacAddress, dst: MacAddress, ethertype: EtherType) -> (f: EthernetFrame)
        ensures
            f.src == src,
            f.dst == dst,
            f.ethertype == ethertype,
    {
        EthernetFrame { dst, src, ethertype }
    }

    /// Size, in bytes, of the header.
    pub fn size() -> (n: usize)
        ensures
            n == 14,
    {
        ETHERNET_HDR_SZ
    }

    /// Parses the header from the first 14 bytes of `bytes`.
    pub fn parse(bytes: &[u8]) -> (r: Result<EthernetFrame, ProtocolError>)
        ensures
            bytes@.len() < 14 ==> (r matches Err(ProtocolError::NotEnoughData(got, exp)) && got
                == bytes@.len() && exp == 14),
            bytes@.len() >= 14 && ethertype_of(be16(bytes@[12], bytes@[13])) is Some ==> (r matches Ok(
                f,
            ) && frame_matches(f, bytes@)),
            bytes@.len() >= 14 && ethertype_of(be16(bytes@[12], bytes@[13])) is None ==> (r matches Err(
                ProtocolError::MalformedPacket(_),
            )),
    {
        if bytes.len() < 14 {
            return Err(ProtocolError::NotEnoughData(bytes.len(), 14));
        }
        let dst = MacAddress::parse(&bytes[0..6]);
        let src = MacAddress::parse(&bytes[6..12]);
        let ty = EtherType::try_from_bytes(&bytes[12..14]);
        match (dst, src, ty) {
            (Ok(dst), Ok(src), Ok(ethertype)) => {
                assert(bytes@.subrange(0, 6) =~= bytes@.subrange(0, 6).subrange(0, 6));
                assert(bytes@.subrange(6, 12) =~= bytes@.subrange(6, 12).subrange(0, 6));
                Ok(EthernetFrame { dst, src, ethertype })
            },
            (_, _, Err(e)) => Err(e),
            _ => Err(ProtocolError::NotEnoughData(bytes.len(), 14)),
        }
    }

    /// Extracts the header from the start of `pkt`, removing its 14 bytes so
    /// that only the payload remains.
    pub fn extract(pkt: &mut Vec<u8>) -> (r: Result<EthernetFrame, ProtocolError>)
        ensures
            old(pkt)@.len() < 14 ==> (r matches Err(ProtocolError::NotEnoughData(got, exp)) && got
                == old(pkt)@.len() && exp == 14),
            old(pkt)@.len() >= 14 && ethertype_of(be16(old(pkt)@[12], old(pkt)@[13])) is Some ==> (
            r matches Ok(f) && frame_matches(f, old(pkt)@)),
            old(pkt)@.len() >= 14 && ethertype_of(be16(old(pkt)@[12], old(pkt)@[13])) is None ==> (
            r matches Err(ProtocolError::MalformedPacket(_))),
            r is Ok ==> final(pkt)@ == old(pkt)@.subrange(14, old(pkt)@.len() as int),
            r is Err ==> final(pkt)@ == old(pkt)@,
    {
        let frame = EthernetFrame::parse(pkt.as_slice())?;
        let payload = pkt.split_off(14);
        *pkt = payload;
        Ok(frame)
    }

    /// Writes the 14 header bytes at the start of `buf`.
    pub fn as_bytes(&self, buf: &mut [u8])
        requires
            old(buf)@.len() >= 14,
        ensures
            final(buf)@.len() == old(buf)@.len(),
            final(buf)@.subrange(0, 14) == frame_bytes(*self),
            final(buf)@.subrange(14, final(buf)@.len() as int) == old(buf)@.subrange(
                14,
                old(buf)@.len() as int,
            ),
    {
        let d = self.dst.as_bytes();
        let s = self.src.as_bytes();
        let code = self.ethertype.as_u16();
        let mut i: usize = 0;
        while i < 6
            invariant
                buf@.len() == old(buf)@.len(),
                old(buf)@.len() >= 14,
                d@ == self.dst@,
                d@.len() == 6,
                s@.len() == 6,
                s@ == self.src@,
                0 <= i <= 6,
                forall|j: int| 0 <= j < i ==> buf@[j] == d@[j] && buf@[6 + j] == s@[j],
                forall|j: int| 12 <= j < buf@.len() ==> buf@[j] == old(buf)@[j],
            decreases 6 - i,
        {
            buf[i] = d[i];
            buf[6 + i] = s[i];
            i = i + 1;
        }
        buf[12] = (code / 256) as u8;
        buf[13] = (code % 256) as u8;
        assert(buf@.subrange(0, 14) =~= frame_bytes(*self));
        assert(buf@.subrange(14, buf@.len() as int) =~= old(buf)@.subrange(
            14,
            old(buf)@.len() as int,
        ));
    }

    /// Returns the 14 header bytes.
    pub fn to_bytes(&self) -> (v: Vec<u8>)
        ensures
            v@ == frame_bytes(*self),
    {
        let mut v: Vec<u8> = vec![0u8; 14];
        self.as_bytes(v.as_mut_slice());
        assert(v@ =~= v@.subrange(0, 14));
        v
    }
}

/// Parsing the bytes of a header yields the same header, whatever follows it.
pub proof fn lemma_frame_roundtrip(f: EthernetFrame, rest: Seq<u8>)
    ensures
        frame_matches(f, frame_bytes(f) + rest),
        ethertype_of(be16((frame_bytes(f) + rest)[12], (frame_bytes(f) + rest)[13])) == Some(
            f.ethertype,
        ),
{
    let b = frame_bytes(f) + rest;
    assert(b.subrange(0, 6) =~= f.dst@);
    assert(b.subrange(6, 12) =~= f.src@);
}

impl EthernetPacket {
    /// Pairs a frame header with its payload.
    pub fn new(frame: EthernetFrame, payload: Vec<u8>) -> (p: EthernetPacket)
        ensures
            p.frame == frame,
            p.payload == payload,
    {
        EthernetPacket { frame, payload }
    }
}

} // verus!
