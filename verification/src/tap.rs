//! Creating a tun/tap upstream device: the interface request handed to
//! the kernel and the device's hardware address.

use vstd::prelude::*;
use vstd::string::StringSliceAdditionalSpecFns;

use crate::error::ProtocolError;
use crate::text::{dec_text, push_dec, push_str};
use crate::types::MacAddress;

verus! {

/// Longest name of a network interface (`IFNAMSIZ`).
pub const IFNAMSIZ: usize = 16;

/// Flag of a tun (layer 3) device.
pub const IFF_TUN: i32 = 0x0001;

/// Flag of a tap (layer 2) device.
pub const IFF_TAP: i32 = 0x0002;

/// Flag asking for frames without packet information.
pub const IFF_NO_PI: i32 = 0x1000;

/// The request creating a device: its name, zero-padded, and its flags.
#[derive(Clone, Copy, Debug)]
pub struct IfReq {
    /// Name of the device, padded with zero bytes
    pub name: [u8; 16],
    /// Device flags
    pub flags: u16,
}

/// Message of the error for a device name longer than `IFNAMSIZ` bytes.
pub open spec fn name_too_long_message(name: Seq<char>, len: nat) -> Seq<char> {
    "device name ("@ + name + ") is too long, max length is 16, provided length "@ + dec_text(len)
}

/// `name`'s bytes followed by zero bytes up to 16.
pub open spec fn padded_name(bytes: Seq<u8>) -> Seq<u8> {
    bytes + Seq::new((16 - bytes.len()) as nat, |i: int| 0u8)
}

/// The interface request creating a device named `name` with `flags` (a
/// tun or tap flag), packet information turned off; refused when the name
/// is longer than `IFNAMSIZ` bytes.
pub fn tap_request(name: &str, flags: i32) -> (r: Result<IfReq, String>)
    ensures
        name.spec_bytes().len() > IFNAMSIZ ==> (r matches Err(e) && e@ == name_too_long_message(
            name@,
            name.spec_bytes().len(),
        )),
        name.spec_bytes().len() <= IFNAMSIZ ==> (r matches Ok(req) && req.name@ == padded_name(
            name.spec_bytes(),
        ) && req.flags == ((flags | IFF_NO_PI) as u16)),
{
    let bytes = name.as_bytes();
    let len = bytes.len();
    if len > IFNAMSIZ {
        let mut msg = String::new();
        push_str(&mut msg, "device name (");
        push_str(&mut msg, name);
        push_str(&mut msg, ") is too long, max length is 16, provided length ");
        push_dec(&mut msg, len as u64);
        return Err(msg);
    }
    let mut out = [0u8; 16];
    let mut i: usize = 0;
    while i < len
        invariant
            len == bytes@.len(),
            len <= 16,
            i <= len,
            forall|k: int| 0 <= k < i ==> out@[k] == bytes@[k],
            forall|k: int| i <= k < 16 ==> out@[k] == 0u8,
        decreases len - i,
    {
        out[i] = bytes[i];
        i = i + 1;
    }
    assert(out@ =~= padded_name(bytes@));
    Ok(IfReq { name: out, flags: (flags | IFF_NO_PI) as u16 })
}

/// The hardware address of a new device: a tap device reports its own in
/// the first six bytes of `hwaddr`; a tun device gets a generated one.
pub fn device_mac(flags: i32, hwaddr: &[i8]) -> (r: Result<MacAddress, ProtocolError>)
    ensures
        flags == IFF_TAP && hwaddr@.len() < 6 ==> (r matches Err(ProtocolError::NotEnoughData(got, exp))
            && got == hwaddr@.len() && exp == 6),
        flags == IFF_TAP && hwaddr@.len() >= 6 ==> (r matches Ok(m) && forall|i: int|
            0 <= i < 6 ==> #[trigger] m@[i] == hwaddr@[i] as u8),
        flags != IFF_TAP ==> (r matches Ok(m) && m@[0] == 0x52 && m@[1] == 0x54 && m@[2] == 0x00),
{
    if flags == IFF_TAP {
        MacAddress::try_from_i8(hwaddr)
    } else {
        Ok(MacAddress::generate())
    }
}

} // verus!
