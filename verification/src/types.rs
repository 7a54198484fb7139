//! Various networking types: ethertypes and MAC addresses.

use vstd::prelude::*;

use rand::RngCore;

use crate::error::ProtocolError;
use crate::text::{hex_text, push_char, push_hex, push_str};

verus! {

/// The payload type carried by an Ethernet frame.
#[derive(Clone, Copy, Debug, PartialEq, Eq, Structural)]
pub enum EtherType {
    IPv4,
    IPv6,
    ARP,
}

/// The 16-bit code of an ethertype.
pub open spec fn ethertype_code(t: EtherType) -> u16 {
    match t {
        EtherType::IPv4 => 0x0800,
        EtherType::IPv6 => 0x86DD,
        EtherType::ARP => 0x0806,
    }
}

/// The ethertype with code `value`, if one is known.
pub open spec fn ethertype_of(value: u16) -> Option<EtherType> {
    if value == 0x0800 {
        Some(EtherType::IPv4)
    } else if value == 0x86DD {
        Some(EtherType::IPv6)
    } else if value == 0x0806 {
        Some(EtherType::ARP)
    } else {
        None
    }
}

/// Message of the error for an unknown ethertype code.
pub open spec fn unknown_ethertype_message(value: u16) -> Seq<char> {
    "unknown ethertype: 0x"@ + hex_text(value as nat, 4)
}

/// Big-endian value of two bytes.
pub open spec fn be16(hi: u8, lo: u8) -> u16 {
    (hi as int * 256 + lo as int) as u16
}

impl EtherType {
    /// Returns the 16-bit code of this ethertype.
    pub fn as_u16(self) -> (r: u16)
        ensures
            r == ethertype_code(self),
    {
        match self {
            EtherType::IPv4 => 0x0800,
            EtherType::IPv6 => 0x86DD,
            EtherType::ARP => 0x0806,
        }
    }

    /// Converts a 16-bit code into an ethertype, failing on unknown codes.
    pub fn try_from_u16(value: u16) -> (r: Result<EtherType, ProtocolError>)
        ensures
            ethertype_of(value) is Some ==> r == Ok::<EtherType, ProtocolError>(
                ethertype_of(value)->0,
            ),
            ethertype_of(value) is None ==> (r matches Err(ProtocolError::MalformedPacket(msg))
                && msg@ == unknown_ethertype_message(value)),
    {
        if value == 0x0800 {
            Ok(EtherType::IPv4)
        } else if value == 0x86DD {
            Ok(EtherType::IPv6)
        } else if value == 0x0806 {
            Ok(EtherType::ARP)
        } else {
            let mut msg = String::new();
            push_str(&mut msg, "unknown ethertype: 0x");
            push_hex(&mut msg, value as u64, 4);
            Err(ProtocolError::MalformedPacket(msg))
        }
    }

    /// Reads an ethertype from the first two (big-endian) bytes of `value`.
    pub fn try_from_bytes(value: &[u8]) -> (r: Result<EtherType, ProtocolError>)
        ensures
            value@.len() < 2 ==> (r matches Err(ProtocolError::NotEnoughData(got, exp)) && got
                == value@.len() && exp == 2),
            value@.len() >= 2 && ethertype_of(be16(value@[0], value@[1])) is Some ==> r == Ok::<
                EtherType,
                ProtocolError,
            >(ethertype_of(be16(value@[0], value@[1]))->0),
            value@.len() >= 2 && ethertype_of(be16(value@[0], value@[1])) is None ==> (r matches Err(
                ProtocolError::MalformedPacket(msg),
            ) && msg@ == unknown_ethertype_message(be16(value@[0], value@[1]))),
    {
        if value.len() < 2 {
            Err(ProtocolError::NotEnoughData(value.len(), 2))
        } else {
            let code: u16 = (value[0] as u16) * 256 + value[1] as u16;
            EtherType::try_from_u16(code)
        }
    }

    /// Renders this ethertype for debugging, e.g. `EtherType(0x0800)`.
    pub fn debug_string(self) -> (s: String)
        ensures
            s@ == "EtherType(0x"@ + hex_text(ethertype_code(self) as nat, 4) + ")"@,
    {
        let mut s = String::new();
        push_str(&mut s, "EtherType(0x");
        push_hex(&mut s, self.as_u16() as u64, 4);
        push_str(&mut s, ")");
        s
    }
}

/// Decoding a code of a known ethertype gives that ethertype back.
pub proof fn lemma_ethertype_roundtrip(t: EtherType)
    ensures
        ethertype_of(ethertype_code(t)) == Some(t),
{
}

/// A MAC (Ethernet hardware) address.
#[derive(Clone, Copy, Debug, PartialEq, Eq, Hash)]
pub struct MacAddress {
    octets: [u8; 6],
}

/// The six octets of a MAC address, as a key that determines it.
pub open spec fn mac_key_of(b: Seq<u8>) -> int {
    ((((b[0] as int * 256 + b[1] as int) * 256 + b[2] as int) * 256 + b[3] as int) * 256
        + b[4] as int) * 256 + b[5] as int
}

proof fn lemma_base256(q: int, r: int)
    requires
        0 <= r < 256,
    ensures
        (q * 256 + r) % 256 == r,
        (q * 256 + r) / 256 == q,
{
    vstd::arithmetic::div_mod::lemma_fundamental_div_mod_converse(q * 256 + r, 256, q, r);
}

proof fn lemma_step_bound(q: int, r: int, bound: int)
    requires
        0 <= r < 256,
        0 <= q < bound,
    ensures
        0 <= q * 256 + r < bound * 256,
{
    assert(q * 256 <= (bound - 1) * 256) by (nonlinear_arith)
        requires
            q <= bound - 1,
    ;
}

/// The textual form `aa:bb:cc:dd:ee:ff` of six octets.
pub open spec fn mac_text(b: Seq<u8>) -> Seq<char> {
    hex_text(b[0] as nat, 2) + ":"@ + hex_text(b[1] as nat, 2) + ":"@ + hex_text(b[2] as nat, 2)
        + ":"@ + hex_text(b[3] as nat, 2) + ":"@ + hex_text(b[4] as nat, 2) + ":"@ + hex_text(
        b[5] as nat,
        2,
    )
}

impl View for MacAddress {
    type V = Seq<u8>;

    closed spec fn view(&self) -> Seq<u8> {
        self.octets@
    }
}

/// A MAC address always has six octets.
pub broadcast proof fn lemma_mac_len(m: MacAddress)
    ensures
        #[trigger] m@.len() == 6,
{
}

/// Produces three random bytes (`rand::RngCore::fill_bytes` on the thread
/// generator). Nothing is claimed about their values.
#[verifier::external_body]
fn random_bytes3() -> (r: [u8; 3]) {
    let mut b = [0u8; 3];
    rand::thread_rng().fill_bytes(&mut b);
    b
}

impl MacAddress {
    /// Builds a MAC address from six octets.
    pub fn from_octets(octets: [u8; 6]) -> (r: MacAddress)
        ensures
            r@ == octets@,
    {
        MacAddress { octets }
    }

    /// Returns the broadcast MacAddress (FF:FF:FF:FF:FF:FF).
    pub fn broadcast() -> (r: MacAddress)
        ensures
            r@ == seq![0xFFu8, 0xFF, 0xFF, 0xFF, 0xFF, 0xFF],
    {
        MacAddress { octets: [0xFF, 0xFF, 0xFF, 0xFF, 0xFF, 0xFF] }
    }

    /// Parses a MAC address from the first six bytes of a byte buffer.
    pub fn parse(bytes: &[u8]) -> (r: Result<MacAddress, ProtocolError>)
        ensures
            bytes@.len() < 6 ==> (r matches Err(ProtocolError::NotEnoughData(got, exp)) && got
                == bytes@.len() && exp == 6),
            bytes@.len() >= 6 ==> (r matches Ok(m) && m@ == bytes@.subrange(0, 6)),
    {
        if bytes.len() < 6 {
            return Err(ProtocolError::NotEnoughData(bytes.len(), 6));
        }
        let mac = [bytes[0], bytes[1], bytes[2], bytes[3], bytes[4], bytes[5]];
        assert(mac@ =~= bytes@.subrange(0, 6));
        Ok(MacAddress { octets: mac })
    }

    /// Parses a MAC address from the first six (signed) bytes of a buffer,
    /// reinterpreting each as unsigned.
    pub fn try_from_i8(bytes: &[i8]) -> (r: Result<MacAddress, ProtocolError>)
        ensures
            bytes@.len() < 6 ==> (r matches Err(ProtocolError::NotEnoughData(got, exp)) && got
                == bytes@.len() && exp == 6),
            bytes@.len() >= 6 ==> (r matches Ok(m) && forall|i: int|
                0 <= i < 6 ==> #[trigger] m@[i] == bytes@[i] as u8),
    {
        if bytes.len() < 6 {
            return Err(ProtocolError::NotEnoughData(bytes.len(), 6));
        }
        let mac = [
            bytes[0] as u8,
            bytes[1] as u8,
            bytes[2] as u8,
            bytes[3] as u8,
            bytes[4] as u8,
            bytes[5] as u8,
        ];
        Ok(MacAddress { octets: mac })
    }

    /// Generates a new MAC address with the prefix 52:54:00 and three random
    /// trailing octets.
    pub fn generate() -> (r: MacAddress)
        ensures
            r@.len() == 6,
            r@[0] == 0x52 && r@[1] == 0x54 && r@[2] == 0x00,
    {
        let tail = random_bytes3();
        MacAddress { octets: [0x52, 0x54, 0x00, tail[0], tail[1], tail[2]] }
    }

    /// Returns the underlying octets.
    pub fn as_bytes(&self) -> (r: &[u8])
        ensures
            r@ == self@,
    {
        self.octets.as_slice()
    }

    /// Returns true if this MAC is the broadcast address.
    pub fn is_broadcast(&self) -> (r: bool)
        ensures
            r == (self@ == seq![0xFFu8, 0xFF, 0xFF, 0xFF, 0xFF, 0xFF]),
    {
        let b = MacAddress::broadcast();
        let r = self.octets[0] == 0xFF && self.octets[1] == 0xFF && self.octets[2] == 0xFF
            && self.octets[3] == 0xFF && self.octets[4] == 0xFF && self.octets[5] == 0xFF;
        proof {
            if r {
                assert(self@ =~= b@);
            }
        }
        r
    }

    /// A 48-bit integer that identifies this address (used as a map key).
    pub fn key(&self) -> (k: u64)
        ensures
            k == mac_key_of(self@),
            k < 0x1_0000_0000_0000,
    {
        let o = self.octets;
        proof {
            let b = self@;
            lemma_step_bound(b[0] as int, b[1] as int, 256);
            lemma_step_bound(b[0] * 256 + b[1], b[2] as int, 0x10000);
            lemma_step_bound((b[0] * 256 + b[1]) * 256 + b[2], b[3] as int, 0x100_0000);
            lemma_step_bound(((b[0] * 256 + b[1]) * 256 + b[2]) * 256 + b[3], b[4] as int, 0x1_0000_0000);
            lemma_step_bound(
                (((b[0] * 256 + b[1]) * 256 + b[2]) * 256 + b[3]) * 256 + b[4],
                b[5] as int,
                0x100_0000_0000,
            );
        }
        let k: u64 = ((((o[0] as u64 * 256 + o[1] as u64) * 256 + o[2] as u64) * 256 + o[3] as u64)
            * 256 + o[4] as u64) * 256 + o[5] as u64;
        k
    }

    /// Renders the address as `aa:bb:cc:dd:ee:ff`.
    pub fn to_string(&self) -> (s: String)
        ensures
            s@ == mac_text(self@),
    {
        let o = self.octets;
        let mut s = String::new();
        push_hex(&mut s, o[0] as u64, 2);
        push_char(&mut s, ':');
        push_hex(&mut s, o[1] as u64, 2);
        push_char(&mut s, ':');
        push_hex(&mut s, o[2] as u64, 2);
        push_char(&mut s, ':');
        push_hex(&mut s, o[3] as u64, 2);
        push_char(&mut s, ':');
        push_hex(&mut s, o[4] as u64, 2);
        push_char(&mut s, ':');
        push_hex(&mut s, o[5] as u64, 2);
        proof {
            reveal_strlit(":");
        }
        assert(s@ =~= mac_text(self@));
        s
    }
}

/// The key of a MAC address determines the address.
pub proof fn lemma_mac_key_injective(a: Seq<u8>, b: Seq<u8>)
    requires
        a.len() == 6,
        b.len() == 6,
        mac_key_of(a) == mac_key_of(b),
    ensures
        a == b,
{
    let q1a = (((a[0] * 256 + a[1]) * 256 + a[2]) * 256 + a[3]) * 256 + a[4];
    let q1b = (((b[0] * 256 + b[1]) * 256 + b[2]) * 256 + b[3]) * 256 + b[4];
    lemma_base256(q1a, a[5] as int);
    lemma_base256(q1b, b[5] as int);
    let q2a = ((a[0] * 256 + a[1]) * 256 + a[2]) * 256 + a[3];
    let q2b = ((b[0] * 256 + b[1]) * 256 + b[2]) * 256 + b[3];
    lemma_base256(q2a, a[4] as int);
    lemma_base256(q2b, b[4] as int);
    let q3a = (a[0] * 256 + a[1]) * 256 + a[2];
    let q3b = (b[0] * 256 + b[1]) * 256 + b[2];
    lemma_base256(q3a, a[3] as int);
    lemma_base256(q3b, b[3] as int);
    let q4a = a[0] * 256 + a[1];
    let q4b = b[0] * 256 + b[1];
    lemma_base256(q4a, a[2] as int);
    lemma_base256(q4b, b[2] as int);
    lemma_base256(a[0] as int, a[1] as int);
    lemma_base256(b[0] as int, b[1] as int);
    assert(a =~= b);
}

/// The key of six octets fits in 48 bits.
pub proof fn lemma_mac_key_bounds(b: Seq<u8>)
    requires
        b.len() == 6,
    ensures
        0 <= mac_key_of(b) < 0x1_0000_0000_0000,
{
    lemma_step_bound(b[0] as int, b[1] as int, 256);
    lemma_step_bound(b[0] * 256 + b[1], b[2] as int, 0x10000);
    lemma_step_bound((b[0] * 256 + b[1]) * 256 + b[2], b[3] as int, 0x100_0000);
    lemma_step_bound(((b[0] * 256 + b[1]) * 256 + b[2]) * 256 + b[3], b[4] as int, 0x1_0000_0000);
    lemma_step_bound(
        (((b[0] * 256 + b[1]) * 256 + b[2]) * 256 + b[3]) * 256 + b[4],
        b[5] as int,
        0x100_0000_0000,
    );
}

/// Parsing the octets of a MAC address gives the same address back.
pub proof fn lemma_mac_parse_roundtrip(m: MacAddress, bytes: Seq<u8>)
    requires
        bytes == m@,
    ensures
        bytes.len() >= 6,
        bytes.subrange(0, 6) == m@,
{
    assert(bytes.subrange(0, 6) =~= m@);
}

} // verus!
