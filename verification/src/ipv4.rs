//! IPv4 headers and packets.

use vstd::prelude::*;
use rand::Rng;

use crate::checksum::{checksum, ph_checksum, pseudo_header_sum, spec_checksum, spec_ph_checksum, word_sum, lemma_checksum_fits, lemma_checksum_verifies};
use crate::error::ProtocolError;

verus! {

/// Protocol number of ICMP.
pub const NET_PROTOCOL_ICMP: u8 = 1;
/// Protocol number of TCP.
pub const NET_PROTOCOL_TCP: u8 = 6;
/// Protocol number of UDP.
pub const NET_PROTOCOL_UDP: u8 = 17;

/// Represents the IPv4 header. Addresses are held as their 32-bit values.
#[derive(Clone, Copy, Debug)]
pub struct Ipv4Header {
    pub version: u8,
    pub ihl: u8,
    pub length: u16,
    pub id: u16,
    pub flags: u8,
    pub frag_offset: u16,
    pub ttl: u8,
    pub protocol: u8,
    pub checksum: u16,
    pub src: u32,
    pub dst: u32,
}

/// Big-endian value of two bytes.
pub open spec fn be16_at(b: Seq<u8>, i: int) -> u16 {
    (b[i] as int * 256 + b[i + 1] as int) as u16
}

/// Big-endian value of four bytes.
pub open spec fn be32_at(b: Seq<u8>, i: int) -> u32 {
    (b[i] as int * 0x100_0000 + b[i + 1] as int * 0x1_0000 + b[i + 2] as int * 0x100 + b[i
        + 3] as int) as u32
}

/// The four octets of an IPv4 address, most significant first.
pub open spec fn octets_of(a: u32) -> Seq<u8> {
    seq![
        (a as int / 0x100_0000) as u8,
        ((a as int / 0x1_0000) % 256) as u8,
        ((a as int / 0x100) % 256) as u8,
        (a as int % 256) as u8,
    ]
}

/// The header described by the first 20 bytes of `b`.
pub open spec fn header_of(b: Seq<u8>) -> Ipv4Header {
    Ipv4Header {
        version: b[0] >> 4u8,
        ihl: b[0] & 0x0Fu8,
        length: be16_at(b, 2),
        id: be16_at(b, 4),
        flags: b[6] >> 5u8,
        frag_offset: be16_at(b, 6) & 0x1FFFu16,
        ttl: b[8],
        protocol: b[9],
        checksum: be16_at(b, 10),
        src: be32_at(b, 12),
        dst: be32_at(b, 16),
    }
}

/// The 20 header bytes with a zero checksum field; `tos` is the second byte,
/// which serialization leaves as it was.
pub open spec fn header_bytes_unsummed(h: Ipv4Header, tos: u8) -> Seq<u8> {
    let ff = ((h.flags as u16) << 13u16) | h.frag_offset;
    seq![
        (h.version << 4u8) | 5u8,
        tos,
        (h.length / 256) as u8,
        (h.length % 256) as u8,
        (h.id / 256) as u8,
        (h.id % 256) as u8,
        (ff / 256) as u8,
        (ff % 256) as u8,
        h.ttl,
        h.protocol,
        0u8,
        0u8,
    ] + octets_of(h.src) + octets_of(h.dst)
}

/// The 20 serialized header bytes, with the header checksum filled in.
pub open spec fn header_bytes(h: Ipv4Header, tos: u8) -> Seq<u8> {
    let raw = header_bytes_unsummed(h, tos);
    let c = spec_checksum(raw);
    raw.update(10, (c / 256) as u8).update(11, (c % 256) as u8)
}

/// A serialized header passes the receiver's checksum test: its checksum
/// is zero.
pub proof fn lemma_header_checksum_verifies(h: Ipv4Header, tos: u8)
    ensures
        spec_checksum(header_bytes(h, tos)) == 0,
{
    let raw = header_bytes_unsummed(h, tos);
    assert(raw[10] == 0 && raw[11] == 0);
    lemma_checksum_verifies(raw, 5);
}

/// Draws a random 16-bit identifier (`rand::Rng::gen` on the thread
/// generator). Nothing is claimed about its value.
#[verifier::external_body]
fn random_id() -> (r: u16) {
    rand::thread_rng().gen()
}

fn octets(a: u32) -> (o: [u8; 4])
    ensures
        o@ == octets_of(a),
{
    let b0 = (a >> 24) as u8;
    let b1 = ((a >> 16) & 0xFF) as u8;
    let b2 = ((a >> 8) & 0xFF) as u8;
    let b3 = (a & 0xFF) as u8;
    assert(b0 == a / 0x100_0000) by (bit_vector)
        requires
            b0 == (a >> 24) as u8,
    ;
    assert(b1 == (a / 0x1_0000) % 256) by (bit_vector)
        requires
            b1 == ((a >> 16) & 0xFF) as u8,
    ;
    assert(b2 == (a / 0x100) % 256) by (bit_vector)
        requires
            b2 == ((a >> 8) & 0xFF) as u8,
    ;
    assert(b3 == a % 256) by (bit_vector)
        requires
            b3 == (a & 0xFF) as u8,
    ;
    let o = [b0, b1, b2, b3];
    assert(o@ =~= octets_of(a));
    o
}

impl Ipv4Header {
    /// Creates a new IPv4 header: version 4, 5-word header, don't-fragment,
    /// TTL 64, a random id, zero checksum, and a total length of the payload
    /// length plus the 20 header bytes.
    pub fn new(src: u32, dst: u32, protocol: u8, length: u16) -> (h: Ipv4Header)
        requires
            length + 20 <= u16::MAX,
        ensures
            h.version == 4 && h.ihl == 5 && h.length == length + 20 && h.flags == 2
                && h.frag_offset == 0 && h.ttl == 64 && h.protocol == protocol && h.checksum == 0
                && h.src == src && h.dst == dst,
    {
        Ipv4Header {
            version: 4,
            ihl: 5,
            length: length + 20,
            id: random_id(),
            flags: 2,
            frag_offset: 0,
            ttl: 64,
            protocol,
            checksum: 0,
            src,
            dst,
        }
    }

    /// Extracts the IPv4 header from the start of a buffer, or returns an
    /// error if the buffer is smaller than the header length it announces,
    /// or than the 20 bytes of a basic header.
    pub fn extract_from_slice(hdr: &[u8]) -> (r: Result<Ipv4Header, ProtocolError>)
        ensures
            hdr@.len() == 0 ==> (r matches Err(ProtocolError::NotEnoughData(got, exp)) && got == 0
                && exp == 20),
            hdr@.len() > 0 && hdr@.len() < (hdr@[0] & 0x0F) as int * 4 ==> (r matches Err(
                ProtocolError::NotEnoughData(got, exp),
            ) && got == hdr@.len() && exp == (hdr@[0] & 0x0F) as int * 4),
            hdr@.len() > 0 && hdr@.len() >= (hdr@[0] & 0x0F) as int * 4 && hdr@.len() < 20 ==> (
            r matches Err(ProtocolError::NotEnoughData(got, exp)) && got == hdr@.len() && exp == 20),
            hdr@.len() >= 20 && hdr@.len() >= (hdr@[0] & 0x0F) as int * 4 ==> r == Ok::<
                Ipv4Header,
                ProtocolError,
            >(header_of(hdr@)),
    {
        if hdr.len() == 0 {
            return Err(ProtocolError::NotEnoughData(0, 20));
        }
        let ihl = hdr[0] & 0x0F;
        let header_sz = (ihl as usize) * 4;
        if hdr.len() < header_sz {
            return Err(ProtocolError::NotEnoughData(hdr.len(), header_sz));
        }
        if hdr.len() < 20 {
            return Err(ProtocolError::NotEnoughData(hdr.len(), 20));
        }
        let version = hdr[0] >> 4;
        let length = (hdr[2] as u16) * 256 + hdr[3] as u16;
        let id = (hdr[4] as u16) * 256 + hdr[5] as u16;
        let flags = hdr[6] >> 5;
        let frag_offset = ((hdr[6] as u16) * 256 + hdr[7] as u16) & 0x1FFF;
        let ttl = hdr[8];
        let protocol = hdr[9];
        let checksum = (hdr[10] as u16) * 256 + hdr[11] as u16;
        let src = (hdr[12] as u32) * 0x100_0000 + (hdr[13] as u32) * 0x1_0000 + (hdr[14] as u32)
            * 0x100 + hdr[15] as u32;
        let dst = (hdr[16] as u32) * 0x100_0000 + (hdr[17] as u32) * 0x1_0000 + (hdr[18] as u32)
            * 0x100 + hdr[19] as u32;
        Ok(
            Ipv4Header {
                version,
                ihl,
                length,
                id,
                flags,
                frag_offset,
                ttl,
                protocol,
                checksum,
                src,
                dst,
            },
        )
    }

    /// Extracts the IPv4 header from a vector of bytes, draining its first
    /// 20 bytes, or returns an error if the vector holds fewer than 20 bytes.
    pub fn extract(pkt: &mut Vec<u8>) -> (r: Result<Ipv4Header, ProtocolError>)
        ensures
            old(pkt)@.len() < 20 ==> (r matches Err(ProtocolError::NotEnoughData(got, exp)) && got
                == old(pkt)@.len() && exp == 20) && final(pkt)@ == old(pkt)@,
            old(pkt)@.len() >= 20 ==> final(pkt)@ == old(pkt)@.subrange(20, old(pkt)@.len() as int)
                && (if old(pkt)@.len() >= 20 && 20 >= (old(pkt)@[0] & 0x0F) as int * 4 {
                r == Ok::<Ipv4Header, ProtocolError>(header_of(old(pkt)@))
            } else {
                r matches Err(ProtocolError::NotEnoughData(got, exp)) && got == 20 && exp == (old(
                    pkt,
                )@[0] & 0x0F) as int * 4
            }),
    {
        if pkt.len() < 20 {
            return Err(ProtocolError::NotEnoughData(pkt.len(), 20));
        }
        let mut hdr = pkt.split_off(20);
        std::mem::swap(pkt, &mut hdr);
        assert(hdr@.subrange(0, 20) =~= hdr@);
        Ipv4Header::extract_from_slice(hdr.as_slice())
    }

    /// Returns the length, in bytes, of the header.
    pub fn header_length(&self) -> (n: usize)
        ensures
            n == self.ihl as int * 4,
    {
        (self.ihl as usize) * 4
    }

    /// Creates a header for a reply: source and destination swapped, a new
    /// id, and a length field computed from the payload length (as `u16`).
    pub fn gen_reply(&self, payload: &[u8]) -> (h: Ipv4Header)
        requires
            payload@.len() as int % 0x10000 + 20 <= u16::MAX,
        ensures
            h.version == 4 && h.ihl == 5 && h.length == payload@.len() as int % 0x10000 + 20
                && h.flags == 2 && h.frag_offset == 0 && h.ttl == 64 && h.protocol == self.protocol
                && h.checksum == 0 && h.src == self.dst && h.dst == self.src,
    {
        let len = payload.len();
        let low: usize = len & 0xFFFF;
        assert(low == len % 0x10000) by (bit_vector)
            requires
                low == len & 0xFFFF,
        ;
        Ipv4Header::new(self.dst, self.src, self.protocol, low as u16)
    }

    /// Replaces the source address with `src` and returns the previous one.
    pub fn masquerade(&mut self, src: u32) -> (old_src: u32)
        ensures
            old_src == old(self).src,
            *final(self) == (Ipv4Header { src, ..*old(self) }),
    {
        let old = self.src;
        self.src = src;
        old
    }

    /// Replaces the destination address with `dst` and returns the previous one.
    pub fn unmasquerade(&mut self, dst: u32) -> (old_dst: u32)
        ensures
            old_dst == old(self).dst,
            *final(self) == (Ipv4Header { dst, ..*old(self) }),
    {
        let old = self.dst;
        self.dst = dst;
        old
    }

    /// Writes this header into the first 20 bytes of `rpkt`: the header
    /// length field is always 5 words, the second byte is left untouched,
    /// and the checksum is computed over the written 20 bytes.
    pub fn as_bytes(&self, rpkt: &mut [u8])
        requires
            old(rpkt)@.len() >= 20,
        ensures
            final(rpkt)@.len() == old(rpkt)@.len(),
            final(rpkt)@.subrange(0, 20) == header_bytes(*self, old(rpkt)@[1]),
            final(rpkt)@.subrange(20, final(rpkt)@.len() as int) == old(rpkt)@.subrange(
                20,
                old(rpkt)@.len() as int,
            ),
    {
        let ghost tos = rpkt@[1];
        let flags_frag: u16 = ((self.flags as u16) << 13) | self.frag_offset;
        rpkt[0] = (self.version << 4) | 5;
        rpkt[2] = (self.length / 256) as u8;
        rpkt[3] = (self.length % 256) as u8;
        rpkt[4] = (self.id / 256) as u8;
        rpkt[5] = (self.id % 256) as u8;
        rpkt[6] = (flags_frag / 256) as u8;
        rpkt[7] = (flags_frag % 256) as u8;
        rpkt[8] = self.ttl;
        rpkt[9] = self.protocol;
        rpkt[10] = 0;
        rpkt[11] = 0;
        let s = octets(self.src);
        let d = octets(self.dst);
        rpkt[12] = s[0];
        rpkt[13] = s[1];
        rpkt[14] = s[2];
        rpkt[15] = s[3];
        rpkt[16] = d[0];
        rpkt[17] = d[1];
        rpkt[18] = d[2];
        rpkt[19] = d[3];
        let ghost raw = header_bytes_unsummed(*self, tos);
        assert(rpkt@.subrange(0, 20) =~= raw);
        proof {
            lemma_checksum_fits(raw);
        }
        let csum = checksum(&rpkt[0..20]);
        rpkt[10] = (csum / 256) as u8;
        rpkt[11] = (csum % 256) as u8;
        assert(rpkt@.subrange(0, 20) =~= header_bytes(*self, tos));
        assert(rpkt@.subrange(20, rpkt@.len() as int) =~= old(rpkt)@.subrange(
            20,
            old(rpkt)@.len() as int,
        ));
    }

    /// Returns this header as an array of 20 bytes (second byte zero).
    pub fn into_bytes(self) -> (b: [u8; 20])
        ensures
            b@ == header_bytes(self, 0),
    {
        let mut buf = [0u8; 20];
        self.as_bytes(&mut buf);
        assert(buf@ =~= buf@.subrange(0, 20));
        buf
    }
}

proof fn lemma_be16_split(x: u16)
    ensures
        (((x / 256) as u8) as int * 256 + ((x % 256) as u8) as int) as u16 == x,
{
}

proof fn lemma_be32_split(a: u32)
    ensures
        be32_at(octets_of(a), 0) == a,
{
    let x = a as int;
    assert(x == (x / 0x100_0000) * 0x100_0000 + ((x / 0x1_0000) % 256) * 0x1_0000 + ((x / 0x100)
        % 256) * 0x100 + x % 256) by (nonlinear_arith)
        requires
            0 <= x < 0x1_0000_0000,
    ;
}

proof fn lemma_header_first_byte(v: u8)
    requires
        v < 16,
    ensures
        ((v << 4u8) | 5u8) >> 4u8 == v,
        ((v << 4u8) | 5u8) & 0x0Fu8 == 5,
{
    assert(((v << 4u8) | 5u8) >> 4u8 == v) by (bit_vector)
        requires
            v < 16,
    ;
    assert(((v << 4u8) | 5u8) & 0x0Fu8 == 5) by (bit_vector);
}

proof fn lemma_flags_frag(f: u8, o: u16)
    requires
        f < 8,
        o < 0x2000,
    ensures
        ((((((f as u16) << 13u16) | o) / 256) as u8) >> 5u8) == f,
        (((((((f as u16) << 13u16) | o) / 256) as u8) as int * 256 + (((((f as u16) << 13u16) | o)
            % 256) as u8) as int) as u16) & 0x1FFFu16 == o,
{
    let ff = ((f as u16) << 13u16) | o;
    assert(((ff / 256) as u8) >> 5u8 == f) by (bit_vector)
        requires
            f < 8,
            o < 0x2000,
            ff == ((f as u16) << 13u16) | o,
    ;
    lemma_be16_split(ff);
    assert(ff & 0x1FFFu16 == o) by (bit_vector)
        requires
            f < 8,
            o < 0x2000,
            ff == ((f as u16) << 13u16) | o,
    ;
}

/// Serializing a header and parsing the bytes back gives the same header
/// (with the checksum computed during serialization), provided each field
/// fits in the bits the format gives it.
pub proof fn lemma_header_roundtrip(h: Ipv4Header, tos: u8)
    requires
        h.version < 16,
        h.flags < 8,
        h.frag_offset < 0x2000,
    ensures
        header_of(header_bytes(h, tos)) == (Ipv4Header {
            ihl: 5,
            checksum: be16_at(header_bytes(h, tos), 10),
            ..h
        }),
{
    let raw = header_bytes_unsummed(h, tos);
    let b = header_bytes(h, tos);
    assert(b.len() == 20);
    assert forall|k: int| 0 <= k < 20 && k != 10 && k != 11 implies b[k] == raw[k] by {}
    lemma_header_first_byte(h.version);
    lemma_flags_frag(h.flags, h.frag_offset);
    lemma_be16_split(h.length);
    lemma_be16_split(h.id);
    lemma_be32_split(h.src);
    lemma_be32_split(h.dst);
    assert(b.subrange(12, 16) =~= octets_of(h.src));
    assert(b.subrange(16, 20) =~= octets_of(h.dst));
    assert(be32_at(b, 12) == be32_at(octets_of(h.src), 0));
    assert(be32_at(b, 16) == be32_at(octets_of(h.dst), 0));
}

/// An IPv4 packet: its parsed header and all of its bytes, header included.
#[derive(Debug)]
pub struct Ipv4Packet {
    header: Ipv4Header,
    data: Vec<u8>,
}

/// The packet bytes after the TCP or UDP checksum has been recomputed over
/// the pseudo header of `h`; other protocols are left as they are.
pub open spec fn transport_fixed(d: Seq<u8>, h: Ipv4Header) -> Seq<u8> {
    let off = h.ihl as int * 4;
    let p = d.subrange(off, d.len() as int);
    if h.protocol == NET_PROTOCOL_TCP {
        let z = p.update(16, 0u8).update(17, 0u8);
        let c = spec_ph_checksum(octets_of(h.src), octets_of(h.dst), h.protocol, z);
        d.subrange(0, off) + z.update(16, (c / 256) as u8).update(17, (c % 256) as u8)
    } else if h.protocol == NET_PROTOCOL_UDP {
        let z = p.update(6, 0u8).update(7, 0u8);
        let c = spec_ph_checksum(octets_of(h.src), octets_of(h.dst), h.protocol, z);
        d.subrange(0, off) + z.update(6, (c / 256) as u8).update(7, (c % 256) as u8)
    } else {
        d
    }
}

/// The transport checksum of the packet bytes `d` can be recomputed: the
/// TCP or UDP header is complete and the 32-bit sum does not overflow.
pub open spec fn transport_fix_ok(d: Seq<u8>, h: Ipv4Header) -> bool {
    let off = h.ihl as int * 4;
    let p = d.subrange(off, d.len() as int);
    if h.protocol == NET_PROTOCOL_TCP {
        p.len() >= 18 && pseudo_header_sum(
            octets_of(h.src),
            octets_of(h.dst),
            h.protocol,
            p.update(16, 0u8).update(17, 0u8),
        ) <= u32::MAX
    } else if h.protocol == NET_PROTOCOL_UDP {
        p.len() >= 8 && pseudo_header_sum(
            octets_of(h.src),
            octets_of(h.dst),
            h.protocol,
            p.update(6, 0u8).update(7, 0u8),
        ) <= u32::MAX
    } else {
        true
    }
}

/// The packet bytes `d` with the header `h` written over their first 20 bytes.
pub open spec fn with_header(d: Seq<u8>, h: Ipv4Header) -> Seq<u8> {
    header_bytes(h, d[1]) + d.subrange(20, d.len() as int)
}

impl Ipv4Packet {
    /// The packet holds a basic header and at least the header length it announces.
    pub closed spec fn wf(&self) -> bool {
        &&& self.data@.len() >= 20
        &&& self.data@.len() >= self.header.ihl as int * 4
    }

    /// The parsed header.
    pub closed spec fn spec_header(&self) -> Ipv4Header {
        self.header
    }

    /// All bytes of the packet.
    pub closed spec fn spec_data(&self) -> Seq<u8> {
        self.data@
    }

    /// The bytes after the header.
    pub open spec fn spec_payload(&self) -> Seq<u8> {
        self.spec_data().subrange(self.spec_header().ihl as int * 4, self.spec_data().len() as int)
    }

    /// Parses an IPv4 packet, extracting the header from the start of the
    /// data; the data keeps the header (see `payload` for what follows it).
    pub fn parse(data: Vec<u8>) -> (r: Result<Ipv4Packet, ProtocolError>)
        ensures
            data@.len() == 0 ==> (r matches Err(ProtocolError::NotEnoughData(got, exp)) && got == 0
                && exp == 20),
            data@.len() > 0 && data@.len() < (data@[0] & 0x0F) as int * 4 ==> (r matches Err(
                ProtocolError::NotEnoughData(got, exp),
            ) && got == data@.len() && exp == (data@[0] & 0x0F) as int * 4),
            data@.len() > 0 && data@.len() >= (data@[0] & 0x0F) as int * 4 && data@.len() < 20 ==> (
            r matches Err(ProtocolError::NotEnoughData(got, exp)) && got == data@.len() && exp == 20),
            data@.len() >= 20 && data@.len() >= (data@[0] & 0x0F) as int * 4 ==> (r matches Ok(p)
                && p.spec_header() == header_of(data@) && p.spec_data() == data@ && p.wf()),
    {
        let header = Ipv4Header::extract_from_slice(data.as_slice())?;
        Ok(Ipv4Packet { header, data })
    }

    /// Returns the next layer (i.e., transport) protocol.
    pub fn protocol(&self) -> (r: u8)
        ensures
            r == self.spec_header().protocol,
    {
        self.header.protocol
    }

    /// Returns the source address.
    pub fn src(&self) -> (r: u32)
        ensures
            r == self.spec_header().src,
    {
        self.header.src
    }

    /// Returns the destination address.
    pub fn dest(&self) -> (r: u32)
        ensures
            r == self.spec_header().dst,
    {
        self.header.dst
    }

    /// Returns the header.
    pub fn header(&self) -> (r: Ipv4Header)
        ensures
            r == self.spec_header(),
    {
        self.header
    }

    /// Returns the packet's payload (aka the transport layer data).
    pub fn payload(&self) -> (r: &[u8])
        requires
            self.wf(),
        ensures
            r@ == self.spec_payload(),
    {
        let offset = self.header.header_length();
        &self.data.as_slice()[offset..self.data.len()]
    }

    /// Returns the packet's payload (aka the transport layer data), to be
    /// written in place; the header is left as it is.
    pub fn payload_mut(&mut self) -> (r: &mut [u8])
        requires
            old(self).wf(),
        ensures
            r@ == old(self).spec_payload(),
            final(self).spec_header() == old(self).spec_header(),
            final(self).spec_data() == old(self).spec_data().subrange(
                0,
                old(self).spec_header().ihl as int * 4,
            ) + final(r)@,
    {
        let offset = self.header.header_length();
        let (_head, rest) = self.data.as_mut_slice().split_at_mut(offset);
        rest
    }

    /// Returns the packet's bytes, including the header.
    pub fn as_bytes(&self) -> (r: &[u8])
        ensures
            r@ == self.spec_data(),
    {
        self.data.as_slice()
    }

    /// Returns the packet's bytes, including the header.
    pub fn into_bytes(self) -> (r: Vec<u8>)
        ensures
            r@ == self.spec_data(),
    {
        self.data
    }

    /// Sets the source address to `ip`, rewrites the header bytes (with a
    /// new header checksum) and recomputes the TCP/UDP checksum.
    pub fn masquerade(&mut self, ip: u32)
        requires
            old(self).wf(),
            transport_fix_ok(
                with_header(old(self).spec_data(), Ipv4Header { src: ip, ..old(self).spec_header() }),
                Ipv4Header { src: ip, ..old(self).spec_header() },
            ),
        ensures
            final(self).wf(),
            final(self).spec_header() == (Ipv4Header { src: ip, ..old(self).spec_header() }),
            final(self).spec_data() == transport_fixed(
                with_header(old(self).spec_data(), final(self).spec_header()),
                final(self).spec_header(),
            ),
    {
        let mut header = self.header;
        header.masquerade(ip);
        self.rewrite(header);
    }

    /// Sets the destination address to `ip`, rewrites the header bytes (with
    /// a new header checksum) and recomputes the TCP/UDP checksum.
    pub fn unmasquerade(&mut self, ip: u32)
        requires
            old(self).wf(),
            transport_fix_ok(
                with_header(old(self).spec_data(), Ipv4Header { dst: ip, ..old(self).spec_header() }),
                Ipv4Header { dst: ip, ..old(self).spec_header() },
            ),
        ensures
            final(self).wf(),
            final(self).spec_header() == (Ipv4Header { dst: ip, ..old(self).spec_header() }),
            final(self).spec_data() == transport_fixed(
                with_header(old(self).spec_data(), final(self).spec_header()),
                final(self).spec_header(),
            ),
    {
        let mut header = self.header;
        header.unmasquerade(ip);
        self.rewrite(header);
    }

    fn rewrite(&mut self, header: Ipv4Header)
        requires
            old(self).wf(),
            header.ihl == old(self).spec_header().ihl,
            transport_fix_ok(with_header(old(self).spec_data(), header), header),
        ensures
            final(self).wf(),
            final(self).spec_header() == header,
            final(self).spec_data() == transport_fixed(
                with_header(old(self).spec_data(), header),
                header,
            ),
    {
        let ghost d0 = self.data@;
        header.as_bytes(self.data.as_mut_slice());
        assert(self.data@ =~= with_header(d0, header));
        fix_transport_checksum(&mut self.data, header);
        self.header = header;
    }

    /// Generates a new IPv4 header to use for a reply carrying `payload`.
    pub fn reply(&self, payload: &[u8]) -> (h: Ipv4Header)
        requires
            payload@.len() as int % 0x10000 + 20 <= u16::MAX,
        ensures
            h.version == 4 && h.ihl == 5 && h.length == payload@.len() as int % 0x10000 + 20
                && h.flags == 2 && h.frag_offset == 0 && h.ttl == 64 && h.protocol
                == self.spec_header().protocol && h.checksum == 0 && h.src == self.spec_header().dst
                && h.dst == self.spec_header().src,
    {
        self.header.gen_reply(payload)
    }
}

/// Recomputes the TCP or UDP checksum of the packet bytes `data`, whose
/// header is `h`: TCP and UDP both cover a pseudo IP header.
fn fix_transport_checksum(data: &mut Vec<u8>, h: Ipv4Header)
    requires
        old(data)@.len() >= h.ihl as int * 4,
        transport_fix_ok(old(data)@, h),
    ensures
        final(data)@ == transport_fixed(old(data)@, h),
{
    let off = h.header_length();
    let src = octets(h.src);
    let dst = octets(h.dst);
    let ghost d0 = data@;
    if h.protocol == NET_PROTOCOL_TCP {
        data.set(off + 16, 0);
        data.set(off + 17, 0);
        let ghost z = d0.subrange(off as int, d0.len() as int).update(16, 0u8).update(17, 0u8);
        assert(data@.subrange(off as int, data@.len() as int) =~= z);
        let sum = ph_checksum(src, dst, h.protocol, &data.as_slice()[off..data.len()]);
        data.set(off + 16, (sum / 256) as u8);
        data.set(off + 17, (sum % 256) as u8);
        assert(data@ =~= transport_fixed(d0, h));
    } else if h.protocol == NET_PROTOCOL_UDP {
        data.set(off + 6, 0);
        data.set(off + 7, 0);
        let ghost z = d0.subrange(off as int, d0.len() as int).update(6, 0u8).update(7, 0u8);
        assert(data@.subrange(off as int, data@.len() as int) =~= z);
        let sum = ph_checksum(src, dst, h.protocol, &data.as_slice()[off..data.len()]);
        data.set(off + 6, (sum / 256) as u8);
        data.set(off + 7, (sum % 256) as u8);
        assert(data@ =~= transport_fixed(d0, h));
    }
}

} // verus!
