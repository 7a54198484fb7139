//! A small DHCPv4 server that leases addresses out of a fixed pool.

use vstd::prelude::*;
use std::collections::{HashMap, VecDeque};

use dhcproto::v4::{DhcpOption as Opt, Message, Opcode};
use dhcproto::{v4, Decodable, Decoder, Encodable};

use crate::bytes::{be16_bytes, copy_into, slice_to_vec};
use crate::error::ProtocolError;
use crate::handler::{PortHandler, PORT_BUF_LEN};
use crate::ipv4::octets_of;
use crate::netaddress::{mask_v4, IpAddress, NetworkAddress};
use crate::types::{lemma_mac_key_injective, lemma_mac_len, MacAddress};

verus! {

broadcast use {lemma_mac_len, vstd::std_specs::hash::group_hash_axioms};

/// UDP port a DHCP server listens on.
pub const DHCP_SERVER_PORT: u16 = 67;

/// DHCP message type: a client looks for servers.
pub const DHCP_DISCOVER: u8 = 1;

/// DHCP message type: a server offers an address.
pub const DHCP_OFFER: u8 = 2;

/// DHCP message type: a client asks for an address.
pub const DHCP_REQUEST: u8 = 3;

/// DHCP message type: a server confirms a lease.
pub const DHCP_ACK: u8 = 5;

/// Lease duration handed to clients, in seconds (one day).
pub const DHCP_LEASE_TIME: u32 = 86400;

/// DNS server announced to clients: 1.1.1.1.
pub const DHCP_DNS_SERVER: u32 = 0x0101_0101;

/// Length of an encoded reply of this server.
pub const DHCP_REPLY_LEN: usize = 280;

/// Range of addresses a DHCP server hands out.
#[derive(Clone, Copy, Debug)]
pub struct DhcpConfig {
    /// First address of the pool
    pub start: u32,
    /// Last address of the pool
    pub end: u32,
}

/// The fields of a decoded DHCPv4 message that the server reads.
#[derive(Clone, Copy, Debug)]
pub struct DhcpHeader {
    /// Hardware type
    pub htype: u8,
    /// Hardware address length
    pub hlen: u8,
    /// Transaction id
    pub xid: u32,
    /// Flags
    pub flags: u16,
    /// Client IP address
    pub ciaddr: u32,
    /// Relay agent IP address
    pub giaddr: u32,
    /// Value of the message type option, if present
    pub msg_type: Option<u8>,
    /// Value of the requested IP address option, if present
    pub requested_ip: Option<u32>,
}

/// A DHCPv4 message from a client.
#[derive(Clone, Debug)]
pub struct DhcpRequest {
    /// Decoded header fields and options
    pub header: DhcpHeader,
    /// Client hardware address (`hlen` bytes)
    pub chaddr: Vec<u8>,
}

/// A DHCPv4 reply of this server.
#[derive(Clone, Debug)]
pub struct DhcpReply {
    /// Hardware type (copied from the request)
    pub htype: u8,
    /// Transaction id (copied from the request)
    pub xid: u32,
    /// Flags (copied from the request)
    pub flags: u16,
    /// Client IP address (copied from the request in an ACK, else 0)
    pub ciaddr: u32,
    /// Address leased to the client
    pub yiaddr: u32,
    /// Server IP address
    pub siaddr: u32,
    /// Relay agent IP address (copied from the request)
    pub giaddr: u32,
    /// Client hardware address (copied from the request)
    pub chaddr: Vec<u8>,
    /// Message type option
    pub msg_type: u8,
    /// Lease time option
    pub lease_time: u32,
    /// Server identifier option
    pub server_id: u32,
    /// Subnet mask option
    pub subnet_mask: u32,
    /// Broadcast address option
    pub broadcast: u32,
    /// Router option (one address)
    pub router: u32,
    /// Domain name server option (one address)
    pub dns: u32,
}

/// Offset of the options in a DHCPv4 message: after the 236 bytes of the
/// fixed header and the 4 bytes of the magic cookie.
pub const DHCP_OPTIONS_OFFSET: usize = 240;

/// Whether the value of option `code`, `len` bytes long in all (the values
/// of consecutive options of one code are joined), has a length the option
/// allows: rapid commit (80) none, client network interface (94) three,
/// bulk lease query status code (151) at least one, the bulk lease query
/// times (152 to 155) four, client FQDN (81) at least three. Other codes
/// take any length here.
pub open spec fn option_len_ok(code: u8, len: int) -> bool {
    if code == 80 {
        len == 0
    } else if code == 94 {
        len == 3
    } else if code == 151 {
        len >= 1
    } else if 152 <= code <= 155 {
        len == 4
    } else if code == 81 {
        len >= 3
    } else {
        true
    }
}

/// Whether every option read from position `p` of message `b` on, `run`
/// being the code and joined length of the option being read, has an
/// allowed length. Pad (0) and end (255) close an option, end stops the
/// options; a different code closes it too; an option whose code, length
/// or value is cut short stops the options without closing the one being
/// read.
pub open spec fn options_from(b: Seq<u8>, p: int, run: Option<(u8, int)>) -> bool
    decreases 2 * (b.len() - p) + (if run is Some { 1int } else { 0int }),
{
    let closed = match run {
        Some((c, l)) => option_len_ok(c, l),
        None => true,
    };
    if p >= b.len() || p < 0 {
        closed
    } else if b[p] == 255 {
        closed
    } else if b[p] == 0 {
        closed && options_from(b, p + 1, None)
    } else if run matches Some((c, l)) && c != b[p] {
        closed && options_from(b, p, None)
    } else if p + 1 >= b.len() {
        true
    } else if p + 2 + b[p + 1] > b.len() {
        true
    } else {
        let before = match run {
            Some((c, l)) => l,
            None => 0,
        };
        options_from(b, p + 2 + b[p + 1], Some((b[p], before + b[p + 1])))
    }
}

/// Every option of the message `data` has a length `dhcproto` decodes
/// without a failed length assertion or an overflow.
pub open spec fn dhcp_options_sound(data: Seq<u8>) -> bool {
    options_from(data, DHCP_OPTIONS_OFFSET as int, None)
}

fn option_len_fits(code: u8, len: usize) -> (r: bool)
    ensures
        r == option_len_ok(code, len as int),
{
    if code == 80 {
        len == 0
    } else if code == 94 {
        len == 3
    } else if code == 151 {
        len >= 1
    } else if 152 <= code && code <= 155 {
        len == 4
    } else if code == 81 {
        len >= 3
    } else {
        true
    }
}

/// Checks the lengths of the options of the message `data` (see
/// [`dhcp_options_sound`]).
pub fn check_dhcp_options(data: &[u8]) -> (r: bool)
    ensures
        r == dhcp_options_sound(data@),
{
    let n = data.len();
    let ghost b = data@;
    let mut p: usize = DHCP_OPTIONS_OFFSET;
    let mut in_run = false;
    let mut run_code: u8 = 0;
    let mut run_len: usize = 0;
    loop
        invariant
            n == b.len(),
            b == data@,
            in_run ==> p <= n && run_len <= p,
            options_from(b, p as int, if in_run { Some((run_code, run_len as int)) } else { None })
                == dhcp_options_sound(b),
        decreases 2 * (n - p) + (if in_run { 1int } else { 0int }),
    {
        if p >= n {
            return !in_run || option_len_fits(run_code, run_len);
        }
        let code = data[p];
        if code == 255 {
            return !in_run || option_len_fits(run_code, run_len);
        }
        if code == 0 {
            if in_run && !option_len_fits(run_code, run_len) {
                return false;
            }
            in_run = false;
            p = p + 1;
        } else if in_run && run_code != code {
            if !option_len_fits(run_code, run_len) {
                return false;
            }
            in_run = false;
        } else {
            if p + 1 >= n {
                return true;
            }
            let l = data[p + 1] as usize;
            if l > n - (p + 2) {
                return true;
            }
            run_len = if in_run {
                run_len + l
            } else {
                l
            };
            run_code = code;
            in_run = true;
            p = p + 2 + l;
        }
    }
}

/// What `dhcproto` decodes from a message: its header fields and options,
/// or the text of its decoding error.
pub uninterp spec fn dhcp_decode(data: Seq<u8>) -> Result<DhcpHeader, Seq<char>>;

/// The client hardware address `dhcproto` decodes from a message.
pub uninterp spec fn dhcp_chaddr(data: Seq<u8>) -> Seq<u8>;

/// Decodes a DHCPv4 message with `dhcproto` (`v4::Message::decode`) and
/// keeps the fields the server reads. The contract only names the result
/// (`dhcp_decode`): a function of the bytes alone. The option decoder of
/// `dhcproto` asserts the lengths of a few options (and subtracts from two
/// of them unchecked), so messages whose options fail
/// [`dhcp_options_sound`] are left out.
#[verifier::external_body]
fn decode_header(data: &[u8]) -> (r: Result<DhcpHeader, String>)
    requires
        dhcp_options_sound(data@),
    ensures
        match (r, dhcp_decode(data@)) {
            (Ok(a), Ok(b)) => a == b,
            (Err(e), Err(m)) => e@ == m,
            _ => false,
        },
{
    match v4::Message::decode(&mut Decoder::new(data)) {
        Ok(m) => Ok(DhcpHeader {
            htype: m.htype().into(), hlen: m.hlen(), xid: m.xid(), flags: m.flags().into(),
            ciaddr: m.ciaddr().into(), giaddr: m.giaddr().into(),
            msg_type: match m.opts().msg_type() { Some(t) => Some(t.into()), None => None },
            requested_ip: match m.opts().get(v4::OptionCode::RequestedIpAddress) {
                Some(Opt::RequestedIpAddress(ip)) => Some((*ip).into()),
                _ => None,
            },
        }),
        Err(e) => Err(e.to_string()),
    }
}

/// Decodes a DHCPv4 message with `dhcproto` and returns its client hardware
/// address (`v4::Message::chaddr`), whose length is the decoded `hlen`.
/// `chaddr` panics when `hlen` exceeds the 16 bytes of the field, and the
/// decoding itself on options of a length it asserts against, hence the
/// preconditions.
#[verifier::external_body]
fn decode_chaddr(data: &[u8]) -> (v: Vec<u8>)
    requires
        dhcp_options_sound(data@),
        dhcp_decode(data@) matches Ok(h) && h.hlen <= 16,
    ensures
        v@ == dhcp_chaddr(data@),
        v@.len() == dhcp_decode(data@)->Ok_0.hlen,
{
    match v4::Message::decode(&mut Decoder::new(data)) {
        Ok(m) => m.chaddr().to_vec(),
        Err(_) => Vec::new(),
    }
}

/// The fixed part (the first 240 bytes) of an encoded reply: header fields,
/// hardware address padded to 16 bytes, empty server and file names, magic
/// cookie.
pub open spec fn dhcp_header_bytes(
    htype: u8,
    chaddr: Seq<u8>,
    xid: u32,
    flags: u16,
    ciaddr: u32,
    yiaddr: u32,
    siaddr: u32,
    giaddr: u32,
) -> Seq<u8> {
    seq![2u8, htype, chaddr.len() as u8, 0u8] + octets_of(xid) + seq![0u8, 0u8] + be16_bytes(flags)
        + octets_of(ciaddr) + octets_of(yiaddr) + octets_of(siaddr) + octets_of(giaddr) + chaddr
        + Seq::new((16 - chaddr.len()) as nat, |i: int| 0u8) + Seq::new(192, |i: int| 0u8) + seq![
        99u8,
        130u8,
        83u8,
        99u8,
    ]
}

/// The fixed part of the encoding of a reply.
pub open spec fn reply_header_bytes(r: DhcpReply) -> Seq<u8> {
    dhcp_header_bytes(r.htype, r.chaddr@, r.xid, r.flags, r.ciaddr, r.yiaddr, r.siaddr, r.giaddr)
}

/// The encodings (code, length, value) of the seven options of a reply
/// with message type `ty`, lease time `lease`, server identifier `server`,
/// subnet mask `mask`, broadcast address `bcast`, router `router` and
/// domain name server `dns`.
pub open spec fn option_encodings(
    ty: u8,
    lease: u32,
    server: u32,
    mask: u32,
    bcast: u32,
    router: u32,
    dns: u32,
) -> Seq<Seq<u8>> {
    seq![
        seq![53u8, 1u8, ty],
        seq![51u8, 4u8] + octets_of(lease),
        seq![54u8, 4u8] + octets_of(server),
        seq![1u8, 4u8] + octets_of(mask),
        seq![28u8, 4u8] + octets_of(bcast),
        seq![3u8, 4u8] + octets_of(router),
        seq![6u8, 4u8] + octets_of(dns),
    ]
}

/// The option encodings of a reply.
pub open spec fn reply_options(r: DhcpReply) -> Seq<Seq<u8>> {
    option_encodings(r.msg_type, r.lease_time, r.server_id, r.subnet_mask, r.broadcast, r.router, r.dns)
}

/// `bytes` is the encodings `opts` one after the other, in some order.
pub open spec fn in_some_order(bytes: Seq<u8>, opts: Seq<Seq<u8>>) -> bool {
    exists|order: Seq<Seq<u8>>|
        #[trigger] order.to_multiset() == opts.to_multiset() && bytes == order.flatten()
}

/// Encodes a reply with `dhcproto` (`v4::Message::new_with_id` and setters
/// filled with the reply's fields, seven options, then `Encodable::encode`
/// into a `Vec` by `Encodable::to_vec`, which cannot fail on such a message).
/// Claims the length (240 bytes of header, seven options of 39 bytes in
/// all, and the end option), the header bytes, the seven option encodings
/// (code, length, value, as `DhcpOption::encode` writes them) and the end
/// option. The order of the seven options between them follows the
/// iteration of a `HashMap` and is left open.
#[verifier::external_body]
fn encode_reply(r: &DhcpReply) -> (v: Vec<u8>)
    requires
        r.chaddr@.len() <= 16,
    ensures
        v@.len() == DHCP_REPLY_LEN,
        v@.subrange(0, 240) == reply_header_bytes(*r),
        in_some_order(v@.subrange(240, 279), reply_options(*r)),
        v@[279] == 255,
{
    let mut m = Message::new_with_id(r.xid, r.ciaddr.into(), r.yiaddr.into(), r.siaddr.into(),
        r.giaddr.into(), &r.chaddr);
    m.set_opcode(Opcode::BootReply).set_htype(r.htype.into()).set_flags(r.flags.into());
    m.set_opts([Opt::MessageType(r.msg_type.into()), Opt::AddressLeaseTime(r.lease_time),
        Opt::ServerIdentifier(r.server_id.into()), Opt::SubnetMask(r.subnet_mask.into()),
        Opt::BroadcastAddr(r.broadcast.into()), Opt::Router(vec![r.router.into()]),
        Opt::DomainNameServer(vec![r.dns.into()])].into_iter().collect());
    m.to_vec().unwrap_or_default()
}

/// The addresses `start, start + 1, ..., end` (just `start` when `end` is
/// below it).
pub open spec fn pool_range(start: u32, end: u32) -> Seq<u32> {
    let n: int = if end >= start { end - start + 1 } else { 1 };
    Seq::new(n as nat, |i: int| (start + i) as u32)
}

/// The address a lease request is granted: the requested one when it is
/// free or already leased to the same client, otherwise the first address of
/// the pool, if any.
pub open spec fn lease_choice(
    pool: Seq<u32>,
    leases: Map<u32, Seq<u8>>,
    want: Option<u32>,
    mac: Seq<u8>,
) -> Option<u32> {
    if want is Some && (!leases.contains_key(want->0) || leases[want->0] == mac) {
        want
    } else if pool.len() > 0 {
        Some(pool[0])
    } else {
        None
    }
}

/// The pool once a lease request is served.
pub open spec fn pool_after(
    pool: Seq<u32>,
    leases: Map<u32, Seq<u8>>,
    want: Option<u32>,
    mac: Seq<u8>,
) -> Seq<u32> {
    if want is Some && (!leases.contains_key(want->0) || leases[want->0] == mac) {
        pool.filter(other_than(want->0))
    } else if pool.len() > 0 {
        pool.drop_first()
    } else {
        pool
    }
}

/// The predicate "differs from `ip`".
pub open spec fn other_than(ip: u32) -> spec_fn(u32) -> bool {
    |x: u32| x != ip
}

/// The hardware address of the client of a request: the first six bytes of
/// its `chaddr`.
pub open spec fn client_mac(msg: DhcpRequest) -> Seq<u8> {
    msg.chaddr@.subrange(0, 6)
}

/// The IPv4 address of a network (the server's own address).
pub open spec fn net_ip(net: NetworkAddress) -> u32 {
    net.spec_ip()->V4_0
}

/// A reply of type `ty` leasing `yiaddr` to the client of `msg`, from the
/// server of network `net`.
pub open spec fn is_reply(
    r: DhcpReply,
    net: NetworkAddress,
    lease_time: u32,
    msg: DhcpRequest,
    yiaddr: u32,
    ty: u8,
) -> bool {
    &&& r.htype == msg.header.htype
    &&& r.xid == msg.header.xid
    &&& r.flags == msg.header.flags
    &&& r.ciaddr == (if ty == DHCP_ACK {
        msg.header.ciaddr
    } else {
        0
    })
    &&& r.yiaddr == yiaddr
    &&& r.siaddr == net_ip(net)
    &&& r.giaddr == msg.header.giaddr
    &&& r.chaddr@ == msg.chaddr@
    &&& r.msg_type == ty
    &&& r.lease_time == lease_time
    &&& r.server_id == net_ip(net)
    &&& r.subnet_mask == mask_v4(net.spec_prefix())
    &&& r.broadcast == net.spec_broadcast()->V4_0
    &&& r.router == net_ip(net)
    &&& r.dns == DHCP_DNS_SERVER
}

/// The fixed part of the encoded reply of type `ty` leasing `yiaddr` to a
/// client with header `h` and hardware address `chaddr`.
pub open spec fn answer_header(
    net: NetworkAddress,
    h: DhcpHeader,
    chaddr: Seq<u8>,
    yiaddr: u32,
    ty: u8,
) -> Seq<u8> {
    dhcp_header_bytes(
        h.htype,
        chaddr,
        h.xid,
        h.flags,
        if ty == DHCP_ACK {
            h.ciaddr
        } else {
            0
        },
        yiaddr,
        net_ip(net),
        h.giaddr,
    )
}

/// The options of a reply of type `ty` from the server of network `net`
/// handing out leases of `lease_time` seconds: the server is the identifier
/// and the router, the mask and broadcast address are the network's, and
/// the name server is 1.1.1.1.
pub open spec fn answer_options(net: NetworkAddress, lease_time: u32, ty: u8) -> Seq<Seq<u8>> {
    option_encodings(
        ty,
        lease_time,
        net_ip(net),
        mask_v4(net.spec_prefix()),
        net.spec_broadcast()->V4_0,
        net_ip(net),
        DHCP_DNS_SERVER,
    )
}

/// A DHCP server for one IPv4 network.
pub struct DhcpServer {
    network: NetworkAddress,
    lease_time: u32,
    available: VecDeque<u32>,
    leased: HashMap<u32, MacAddress>,
}

proof fn lemma_filter_no_duplicates(s: Seq<u32>, p: spec_fn(u32) -> bool)
    requires
        s.no_duplicates(),
    ensures
        s.filter(p).no_duplicates(),
    decreases s.len(),
{
    reveal_with_fuel(Seq::filter, 2);
    if s.len() > 0 {
        let d = s.drop_last();
        assert(d.no_duplicates()) by {
            assert forall|i: int, j: int| 0 <= i < d.len() && 0 <= j < d.len() && i != j implies d[i]
                != d[j] by {
                assert(d[i] == s[i] && d[j] == s[j]);
            }
        }
        lemma_filter_no_duplicates(d, p);
        if p(s.last()) {
            if d.filter(p).contains(s.last()) {
                d.lemma_filter_contains_rev(p, s.last());
                let k = choose|k: int| 0 <= k < d.len() && d[k] == s.last();
                assert(s[k] == s[s.len() - 1]);
            }
        }
    }
}

/// What handling the datagram payload `data` does: `s0` and `b0` are the
/// server and the answer buffer before, `s1` and `b1` after, `r` the result.
pub open spec fn port_outcome(
    s0: DhcpServer,
    s1: DhcpServer,
    data: Seq<u8>,
    b0: Seq<u8>,
    b1: Seq<u8>,
    r: Result<usize, ProtocolError>,
) -> bool {
    if !dhcp_options_sound(data) {
        (r matches Err(ProtocolError::MalformedPacket(_))) && s1.pool() == s0.pool() && s1.leases()
            == s0.leases() && b1 == b0
    } else {
    match dhcp_decode(data) {
        Err(m) => (r matches Err(ProtocolError::Other(e)) && e@ == m) && s1.pool()
            == s0.pool() && s1.leases() == s0.leases() && b1
            == b0,
        Ok(h) => if h.msg_type is None {
            (r matches Err(ProtocolError::Other(e)) && e@ == "dhcp missing msg type"@)
                && s1.pool() == s0.pool() && s1.leases() == s0.leases() && b1 == b0
        } else if h.msg_type != Some(DHCP_DISCOVER) && h.msg_type != Some(DHCP_REQUEST) {
            r == Ok::<usize, ProtocolError>(0) && s1.pool() == s0.pool()
                && s1.leases() == s0.leases() && b1 == b0
        } else if h.hlen < 6 || h.hlen > 16 {
            (r matches Err(ProtocolError::MalformedPacket(_))) && s1.pool() == s0.pool() && s1.leases() == s0.leases() && b1 == b0
        } else {
            let mac = dhcp_chaddr(data).subrange(0, 6);
            let ty = if h.msg_type == Some(DHCP_DISCOVER) {
                DHCP_OFFER
            } else {
                DHCP_ACK
            };
            &&& s1.pool() == pool_after(
                s0.pool(),
                s0.leases(),
                h.requested_ip,
                mac,
            )
            &&& match lease_choice(s0.pool(), s0.leases(), h.requested_ip, mac) {
                None => s1.leases() == s0.leases() && (r matches Err(
                    ProtocolError::Other(e),
                ) && e@ == "address space exhausted"@) && b1 == b0,
                Some(a) => {
                    &&& s1.leases() == s0.leases().insert(a, mac)
                    &&& r == Ok::<usize, ProtocolError>(DHCP_REPLY_LEN)
                    &&& b1.subrange(0, 240) == answer_header(
                        s0.spec_network(),
                        h,
                        dhcp_chaddr(data),
                        a,
                        ty,
                    )
                    &&& in_some_order(
                        b1.subrange(240, 279),
                        answer_options(s0.spec_network(), s0.spec_lease_time(), ty),
                    )
                    &&& b1[279] == 255
                    &&& b1.subrange(280, b0.len() as int) == b0.subrange(280, b0.len() as int)
                },
            }
        },
    }
    }
}

impl DhcpServer {
    /// The served network.
    pub closed spec fn spec_network(&self) -> NetworkAddress {
        self.network
    }

    /// Addresses not yet handed out, in the order they will be offered.
    pub closed spec fn pool(&self) -> Seq<u32> {
        self.available@
    }

    /// Leased addresses and the hardware address of the client holding each.
    pub closed spec fn leases(&self) -> Map<u32, Seq<u8>> {
        self.leased@.map_values(|m: MacAddress| m@)
    }

    /// Lease time announced to clients.
    pub closed spec fn spec_lease_time(&self) -> u32 {
        self.lease_time
    }

    /// The server's invariant: an IPv4 network, a pool without repeats and
    /// no address both in the pool and leased.
    pub closed spec fn wf(&self) -> bool {
        &&& self.network.spec_ip() is V4
        &&& self.available@.no_duplicates()
        &&& forall|i: int|
            0 <= i < self.available@.len() ==> !self.leased@.contains_key(
                #[trigger] self.available@[i],
            )
    }

    /// A well-formed server never holds an address twice in its pool, and no
    /// address of the pool is leased.
    pub proof fn lemma_pool_disjoint_from_leases(&self)
        requires
            self.wf(),
        ensures
            self.pool().no_duplicates(),
            forall|i: int| 0 <= i < self.pool().len() ==> !self.leases().contains_key(#[trigger] self.pool()[i]),
    {
        assert forall|i: int| 0 <= i < self.pool().len() implies !self.leases().contains_key(#[trigger] self.pool()[i]) by {
            assert(!self.leased@.contains_key(self.available@[i]));
        }
    }

    /// Creates a server for `network` whose pool holds the addresses from
    /// `cfg.start` to `cfg.end`.
    pub fn new(network: NetworkAddress, cfg: DhcpConfig) -> (s: DhcpServer)
        requires
            network.spec_ip() is V4,
        ensures
            s.wf(),
            s.spec_network() == network,
            s.pool() == pool_range(cfg.start, cfg.end),
            s.leases() == Map::<u32, Seq<u8>>::empty(),
            s.spec_lease_time() == DHCP_LEASE_TIME,
    {
        let mut next_avail = NetworkAddress::new_v4_value(cfg.start, network.subnet_mask_bits());
        let mut available: VecDeque<u32> = VecDeque::new();
        let ghost last: int = if cfg.end >= cfg.start { cfg.end as int } else { cfg.start as int };
        loop
            invariant_except_break
                next_avail.spec_ip() matches IpAddress::V4(a) && cfg.start <= a <= last && available@
                    == Seq::new((a - cfg.start) as nat, |i: int| (cfg.start + i) as u32),
                next_avail.spec_prefix() == network.spec_prefix(),
                last == (if cfg.end >= cfg.start { cfg.end as int } else { cfg.start as int }),
            ensures
                available@ == pool_range(cfg.start, cfg.end),
            decreases last - next_avail.spec_ip()->V4_0,
        {
            let ip = match next_avail.ip() {
                IpAddress::V4(a) => a,
                IpAddress::V6(_) => cfg.start,
            };
            available.push_back(ip);
            match next_avail.next() {
                None => {
                    assert(available@ =~= pool_range(cfg.start, cfg.end));
                    break;
                },
                Some(nxt) => {
                    let nip = match nxt.ip() {
                        IpAddress::V4(a) => a,
                        IpAddress::V6(_) => cfg.start,
                    };
                    if nip > cfg.end {
                        assert(available@ =~= pool_range(cfg.start, cfg.end));
                        break;
                    }
                    next_avail = nxt;
                    assert(available@ =~= Seq::new((nip - cfg.start) as nat, |i: int| (cfg.start + i) as u32));
                },
            }
        }
        let s = DhcpServer {
            network,
            lease_time: DHCP_LEASE_TIME,
            available,
            leased: HashMap::new(),
        };
        assert(s.leases() =~= Map::<u32, Seq<u8>>::empty());
        assert(s.available@.no_duplicates());
        s
    }

    /// Removes every occurrence of `ip` from the pool.
    fn remove_available(&mut self, ip: u32)
        ensures
            final(self).available@ == old(self).available@.filter(other_than(ip)),
            final(self).network == old(self).network,
            final(self).leased@ == old(self).leased@,
            final(self).lease_time == old(self).lease_time,
    {
        let mut kept: VecDeque<u32> = VecDeque::new();
        let n = self.available.len();
        let mut i: usize = 0;
        while i < n
            invariant
                n == self.available@.len(),
                i <= n,
                kept@ == self.available@.subrange(0, i as int).filter(other_than(ip)),
            decreases n - i,
        {
            let x = self.available[i];
            proof {
                let s1 = self.available@.subrange(0, i + 1);
                assert(s1.drop_last() =~= self.available@.subrange(0, i as int));
                assert(s1.last() == x);
                reveal_with_fuel(Seq::filter, 1);
            }
            if x != ip {
                kept.push_back(x);
            }
            i = i + 1;
        }
        assert(self.available@.subrange(0, n as int) =~= self.available@);
        self.available = kept;
    }

    /// The address the client asks for, if it names one.
    fn get_requested_ip(&self, msg: &DhcpRequest) -> (r: Option<u32>)
        ensures
            r == msg.header.requested_ip,
    {
        msg.header.requested_ip
    }

    /// Leases an address to the client of `msg`: the address it requests
    /// when that address is free or already its own, otherwise the next
    /// address of the pool. Returns the leased address with the prefix of
    /// the served network, or `None` when the pool is exhausted.
    pub fn lease_ip(&mut self, msg: &DhcpRequest) -> (r: Option<NetworkAddress>)
        requires
            old(self).wf(),
            msg.chaddr@.len() >= 6,
        ensures
            final(self).wf(),
            final(self).spec_network() == old(self).spec_network(),
            final(self).spec_lease_time() == old(self).spec_lease_time(),
            final(self).pool() == pool_after(
                old(self).pool(),
                old(self).leases(),
                msg.header.requested_ip,
                client_mac(*msg),
            ),
            final(self).leases() == (match lease_choice(
                old(self).pool(),
                old(self).leases(),
                msg.header.requested_ip,
                client_mac(*msg),
            ) {
                Some(a) => old(self).leases().insert(a, client_mac(*msg)),
                None => old(self).leases(),
            }),
            match r {
                Some(n) => n.spec_ip() is V4 && lease_choice(
                    old(self).pool(),
                    old(self).leases(),
                    msg.header.requested_ip,
                    client_mac(*msg),
                ) == Some(n.spec_ip()->V4_0) && n.spec_prefix()
                    == old(self).spec_network().spec_prefix(),
                None => lease_choice(
                    old(self).pool(),
                    old(self).leases(),
                    msg.header.requested_ip,
                    client_mac(*msg),
                ) is None,
            },
    {
        let ghost old_pool = self.available@;
        let ghost old_leased = self.leased@;
        let client = match MacAddress::parse(msg.chaddr.as_slice()) {
            Ok(m) => m,
            Err(_) => return None,
        };
        assert(client@ == client_mac(*msg));
        let ip = match self.get_requested_ip(msg) {
            Some(ria) => {
                let free = match self.leased.get(&ria) {
                    None => true,
                    Some(mac) => {
                        proof {
                            if mac_key_of_eq(mac@, client@) {
                                lemma_mac_key_injective(mac@, client@);
                            }
                        }
                        mac.key() == client.key()
                    },
                };
                assert(free == (!self.leases().contains_key(ria) || self.leases()[ria]
                    == client_mac(*msg)));
                if free {
                    self.remove_available(ria);
                    proof {
                        lemma_filter_no_duplicates(old_pool, other_than(ria));
                        assert forall|i: int| 0 <= i < self.available@.len() implies
                            #[trigger] self.available@[i] != ria && old_pool.contains(
                            self.available@[i],
                        ) by {
                            old_pool.lemma_filter_pred(other_than(ria), i);
                            old_pool.lemma_filter_contains_rev(other_than(ria), self.available@[i]);
                        }
                    }
                    Some(ria)
                } else {
                    let p = self.available.pop_front();
                    proof {
                        assert forall|i: int| 0 <= i < self.available@.len() implies
                            #[trigger] self.available@[i] != old_pool[0] && old_pool.contains(
                            self.available@[i],
                        ) by {
                            assert(self.available@[i] == old_pool[i + 1]);
                        }
                    }
                    p
                }
            },
            None => {
                let p = self.available.pop_front();
                proof {
                    assert forall|i: int| 0 <= i < self.available@.len() implies
                        #[trigger] self.available@[i] != old_pool[0] && old_pool.contains(
                        self.available@[i],
                    ) by {
                        assert(self.available@[i] == old_pool[i + 1]);
                    }
                }
                p
            },
        };
        match ip {
            Some(ip) => {
                self.leased.insert(ip, client);
                proof {
                    assert(self.leases() =~= old_leased.map_values(|m: MacAddress| m@).insert(
                        ip,
                        client@,
                    ));
                    assert(self.available@.no_duplicates());
                }
                Some(NetworkAddress::new_v4_value(ip, self.network.subnet_mask_bits()))
            },
            None => None,
        }
    }

    /// Builds the reply of type `ty` leasing `ip` to the client of `msg`.
    fn build_message(&self, msg: &DhcpRequest, ip: &NetworkAddress, ty: u8) -> (r: DhcpReply)
        requires
            self.wf(),
            ip.spec_ip() is V4,
        ensures
            is_reply(
                r,
                self.spec_network(),
                self.spec_lease_time(),
                *msg,
                ip.spec_ip()->V4_0,
                ty,
            ),
    {
        let server = match self.network.ip() {
            IpAddress::V4(a) => a,
            IpAddress::V6(_) => 0,
        };
        let yiaddr = match ip.ip() {
            IpAddress::V4(a) => a,
            IpAddress::V6(_) => 0,
        };
        let mask = match self.network.subnet_mask() {
            IpAddress::V4(m) => m,
            IpAddress::V6(_) => 0,
        };
        let broadcast = match self.network.broadcast() {
            IpAddress::V4(b) => b,
            IpAddress::V6(_) => 0,
        };
        DhcpReply {
            htype: msg.header.htype,
            xid: msg.header.xid,
            flags: msg.header.flags,
            ciaddr: if ty == DHCP_ACK {
                msg.header.ciaddr
            } else {
                0
            },
            yiaddr,
            siaddr: server,
            giaddr: msg.header.giaddr,
            chaddr: slice_to_vec(msg.chaddr.as_slice()),
            msg_type: ty,
            lease_time: self.lease_time,
            server_id: server,
            subnet_mask: mask,
            broadcast,
            router: server,
            dns: DHCP_DNS_SERVER,
        }
    }

    /// Answers a DHCPDISCOVER: leases an address and offers it.
    pub fn handle_discover(&mut self, msg: DhcpRequest) -> (r: Result<DhcpReply, ProtocolError>)
        requires
            old(self).wf(),
            msg.chaddr@.len() >= 6,
        ensures
            final(self).wf(),
            final(self).spec_network() == old(self).spec_network(),
            final(self).spec_lease_time() == old(self).spec_lease_time(),
            final(self).pool() == pool_after(
                old(self).pool(),
                old(self).leases(),
                msg.header.requested_ip,
                client_mac(msg),
            ),
            match lease_choice(
                old(self).pool(),
                old(self).leases(),
                msg.header.requested_ip,
                client_mac(msg),
            ) {
                Some(a) => final(self).leases() == old(self).leases().insert(a, client_mac(msg))
                    && (r matches Ok(reply) && is_reply(
                    reply,
                    old(self).spec_network(),
                    old(self).spec_lease_time(),
                    msg,
                    a,
                    DHCP_OFFER,
                )),
                None => final(self).leases() == old(self).leases() && (r matches Err(
                    ProtocolError::Other(e),
                ) && e@ == "address space exhausted"@),
            },
    {
        let ip = match self.lease_ip(&msg) {
            Some(ip) => ip,
            None => {
                return Err(ProtocolError::Other("address space exhausted".to_string()));
            },
        };
        Ok(self.build_message(&msg, &ip, DHCP_OFFER))
    }

    /// Answers a DHCPREQUEST: leases an address and acknowledges it.
    pub fn handle_request(&mut self, msg: DhcpRequest) -> (r: Result<DhcpReply, ProtocolError>)
        requires
            old(self).wf(),
            msg.chaddr@.len() >= 6,
        ensures
            final(self).wf(),
            final(self).spec_network() == old(self).spec_network(),
            final(self).spec_lease_time() == old(self).spec_lease_time(),
            final(self).pool() == pool_after(
                old(self).pool(),
                old(self).leases(),
                msg.header.requested_ip,
                client_mac(msg),
            ),
            match lease_choice(
                old(self).pool(),
                old(self).leases(),
                msg.header.requested_ip,
                client_mac(msg),
            ) {
                Some(a) => final(self).leases() == old(self).leases().insert(a, client_mac(msg))
                    && (r matches Ok(reply) && is_reply(
                    reply,
                    old(self).spec_network(),
                    old(self).spec_lease_time(),
                    msg,
                    a,
                    DHCP_ACK,
                )),
                None => final(self).leases() == old(self).leases() && (r matches Err(
                    ProtocolError::Other(e),
                ) && e@ == "address space exhausted"@),
            },
    {
        let ip = match self.lease_ip(&msg) {
            Some(ip) => ip,
            None => {
                return Err(ProtocolError::Other("address space exhausted".to_string()));
            },
        };
        Ok(self.build_message(&msg, &ip, DHCP_ACK))
    }

    /// Handles the payload of a datagram sent to the DHCP port: answers a
    /// DHCPDISCOVER with an offer and a DHCPREQUEST with an acknowledgement,
    /// writing the encoded reply at the start of `buf` and returning its
    /// length; other message types get no answer (length 0). A message
    /// whose hardware address is shorter than a MAC address or longer than
    /// its 16-byte field is refused as malformed.
    pub fn handle_port(&mut self, data: &[u8], buf: &mut [u8]) -> (r: Result<usize, ProtocolError>)
        requires
            old(self).wf(),
            old(buf)@.len() >= DHCP_REPLY_LEN,
        ensures
            final(self).wf(),
            final(self).spec_network() == old(self).spec_network(),
            final(self).spec_lease_time() == old(self).spec_lease_time(),
            final(buf)@.len() == old(buf)@.len(),
            port_outcome(*old(self), *final(self), data@, old(buf)@, final(buf)@, r),
    {
        if !check_dhcp_options(data) {
            return Err(ProtocolError::MalformedPacket("invalid dhcp option length".to_string()));
        }
        let h = match decode_header(data) {
            Ok(h) => h,
            Err(e) => {
                return Err(ProtocolError::Other(e));
            },
        };
        let t = match h.msg_type {
            Some(t) => t,
            None => {
                return Err(ProtocolError::Other("dhcp missing msg type".to_string()));
            },
        };
        if t != DHCP_DISCOVER && t != DHCP_REQUEST {
            // offers and acknowledgements are sent by servers; releases,
            // declines and the rest need no answer
            return Ok(0);
        }
        if h.hlen < 6 || h.hlen > 16 {
            return Err(
                ProtocolError::MalformedPacket("invalid client hardware address length".to_string()),
            );
        }
        let msg = DhcpRequest { header: h, chaddr: decode_chaddr(data) };
        let ghost m = msg;
        let reply = if t == DHCP_DISCOVER {
            match self.handle_discover(msg) {
                Ok(reply) => reply,
                Err(e) => {
                    return Err(e);
                },
            }
        } else {
            match self.handle_request(msg) {
                Ok(reply) => reply,
                Err(e) => {
                    return Err(e);
                },
            }
        };
        let bytes = encode_reply(&reply);
        copy_into(buf, 0, bytes.as_slice());
        proof {
            assert(buf@.subrange(0, 240) =~= bytes@.subrange(0, 240)) by {
                assert(buf@.subrange(0, 280) == bytes@);
            }
            assert(buf@[279] == bytes@[279]) by {
                assert(buf@.subrange(0, 280) == bytes@);
            }
            assert(buf@.subrange(240, 279) =~= bytes@.subrange(240, 279)) by {
                assert(buf@.subrange(0, 280) == bytes@);
            }
            let ty = if t == DHCP_DISCOVER { DHCP_OFFER } else { DHCP_ACK };
            assert(reply_options(reply) =~= answer_options(old(self).spec_network(), old(self).spec_lease_time(), ty));
            assert(buf@.subrange(280, buf@.len() as int) =~= old(buf)@.subrange(
                280,
                old(buf)@.len() as int,
            ));
        }
        Ok(bytes.len())
    }
}

impl PortHandler for DhcpServer {
    open spec fn inv(&self) -> bool {
        self.wf()
    }

    open spec fn spec_port(&self) -> u16 {
        DHCP_SERVER_PORT
    }

    open spec fn serves(
        &self,
        data: Seq<u8>,
        b0: Seq<u8>,
        after: Self,
        b1: Seq<u8>,
        r: Result<usize, ProtocolError>,
    ) -> bool {
        &&& after.spec_network() == self.spec_network()
        &&& after.spec_lease_time() == self.spec_lease_time()
        &&& port_outcome(*self, after, data, b0, b1, r)
    }

    fn port(&self) -> (p: u16) {
        DHCP_SERVER_PORT
    }

    fn handle_port(&mut self, data: &[u8], buf: &mut [u8]) -> (r: Result<usize, ProtocolError>)
        ensures
            final(self).spec_network() == old(self).spec_network(),
            final(self).spec_lease_time() == old(self).spec_lease_time(),
            port_outcome(*old(self), *final(self), data@, old(buf)@, final(buf)@, r),
    {
        DhcpServer::handle_port(self, data, buf)
    }
}

/// Two hardware addresses have the same key.
spec fn mac_key_of_eq(a: Seq<u8>, b: Seq<u8>) -> bool {
    crate::types::mac_key_of(a) == crate::types::mac_key_of(b)
}


/// Serving a lease request never takes an address away from the client
/// holding it, and the address it grants is no longer in the pool: for a
/// pool without repeats and with no leased address in it, every lease held
/// before is held after by the same client, and the granted address is
/// leased to the requesting client and gone from the pool.
pub proof fn lemma_lease_keeps_holders(
    pool: Seq<u32>,
    leases: Map<u32, Seq<u8>>,
    want: Option<u32>,
    mac: Seq<u8>,
)
    requires
        pool.no_duplicates(),
        forall|i: int| 0 <= i < pool.len() ==> !leases.contains_key(#[trigger] pool[i]),
    ensures
        ({
            let after = match lease_choice(pool, leases, want, mac) {
                Some(a) => leases.insert(a, mac),
                None => leases,
            };
            &&& forall|x: u32| #[trigger]
                leases.contains_key(x) ==> after.contains_key(x) && after[x] == leases[x]
            &&& lease_choice(pool, leases, want, mac) matches Some(a) ==> after[a] == mac
                && !pool_after(pool, leases, want, mac).contains(a)
        }),
{
    match lease_choice(pool, leases, want, mac) {
        Some(a) => {
            let rest = pool_after(pool, leases, want, mac);
            if want is Some && (!leases.contains_key(want->0) || leases[want->0] == mac) {
                if rest.contains(a) {
                    let k = choose|k: int| 0 <= k < rest.len() && rest[k] == a;
                    pool.lemma_filter_pred(other_than(a), k);
                }
            } else {
                assert(!leases.contains_key(pool[0]));
                if rest.contains(a) {
                    let k = choose|k: int| 0 <= k < rest.len() && rest[k] == a;
                    assert(rest[k] == pool[k + 1]);
                }
            }
        },
        None => {},
    }
}

/// Serving a lease request (as `DhcpServer::lease_ip` does, for a pool
/// without repeats and with no leased address in it): the requested
/// address is granted when it is free or already the client's; otherwise
/// the first address of the pool is; with an empty pool nothing is. An
/// address leased to another client is never granted, leases held before
/// are kept by their holders, and afterwards the pool still has no repeats
/// and no leased address.
pub proof fn lemma_lease_law(pool: Seq<u32>, leases: Map<u32, Seq<u8>>, want: Option<u32>, mac: Seq<u8>)
    requires
        pool.no_duplicates(),
        forall|i: int| 0 <= i < pool.len() ==> !leases.contains_key(#[trigger] pool[i]),
    ensures
        ({
            let choice = lease_choice(pool, leases, want, mac);
            let pool1 = pool_after(pool, leases, want, mac);
            let leases1 = match choice {
                Some(a) => leases.insert(a, mac),
                None => leases,
            };
            &&& (want matches Some(ip) && (!leases.contains_key(ip) || leases[ip] == mac)) ==> choice
                == want && pool1 == pool.filter(other_than(want->0))
            &&& !(want matches Some(ip) && (!leases.contains_key(ip) || leases[ip] == mac)) && pool.len()
                > 0 ==> choice == Some(pool[0]) && pool1 == pool.drop_first()
            &&& !(want matches Some(ip) && (!leases.contains_key(ip) || leases[ip] == mac)) && pool.len()
                == 0 ==> choice is None && pool1 == pool && leases1 == leases
            &&& forall|x: u32|
                leases.contains_key(x) && leases[x] != mac ==> choice != Some(x)
            &&& forall|x: u32| #[trigger]
                leases.contains_key(x) ==> leases1.contains_key(x) && leases1[x] == leases[x]
            &&& choice matches Some(a) ==> leases1[a] == mac
            &&& pool1.no_duplicates()
            &&& forall|i: int| 0 <= i < pool1.len() ==> !leases1.contains_key(#[trigger] pool1[i])
        }),
{
    lemma_lease_keeps_holders(pool, leases, want, mac);
    let choice = lease_choice(pool, leases, want, mac);
    let pool1 = pool_after(pool, leases, want, mac);
    if want is Some && (!leases.contains_key(want->0) || leases[want->0] == mac) {
        let ip = want->0;
        lemma_filter_no_duplicates(pool, other_than(ip));
        assert forall|i: int| 0 <= i < pool1.len() implies !leases.insert(ip, mac).contains_key(#[trigger] pool1[i]) by {
            assert(pool1.contains(pool1[i]));
            pool.lemma_filter_contains_rev(other_than(ip), pool1[i]);
            let k = choose|k: int| 0 <= k < pool.len() && pool[k] == pool1[i];
            assert(!leases.contains_key(pool[k]));
            assert(other_than(ip)(pool1[i])) by {
                pool.lemma_filter_pred(other_than(ip), i);
            }
        }
    } else if pool.len() > 0 {
        assert(pool1.no_duplicates()) by {
            assert forall|i: int, j: int| 0 <= i < pool1.len() && 0 <= j < pool1.len() && i != j implies pool1[i]
                != pool1[j] by {
                assert(pool1[i] == pool[i + 1] && pool1[j] == pool[j + 1]);
            }
        }
        assert forall|i: int| 0 <= i < pool1.len() implies !leases.insert(pool[0], mac).contains_key(#[trigger] pool1[i]) by {
            assert(pool1[i] == pool[i + 1]);
            assert(!leases.contains_key(pool[i + 1]));
        }
    }
}

} // verus!
