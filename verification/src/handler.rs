//! Handlers for the transport protocols of IPv4 packets addressed to the
//! router, and the UDP handler that dispatches datagrams by port.

use vstd::prelude::*;

use crate::bytes::{be16_bytes, copy_into, slice_to_vec};
use crate::error::ProtocolError;
use crate::ipv4::{Ipv4Packet, NET_PROTOCOL_ICMP, NET_PROTOCOL_UDP};
use crate::local::{echo_filled, write_echo_reply, ICMP_ECHO_REQUEST};
use crate::types::be16;

verus! {

/// Length of a UDP header.
pub const UDP_HDR_SZ: usize = 8;

/// Room a protocol handler has for the IPv4 payload of its answer: the
/// router's 1560-byte packet buffer less the 20-byte IPv4 header.
pub const PROTOCOL_BUF_LEN: usize = 1540;

/// Room a port handler has for the UDP payload of its answer.
pub const PORT_BUF_LEN: usize = 1532;

/// Handles one transport protocol of IPv4 packets addressed to the router.
pub trait ProtocolHandler: Sized {
    /// The handler's own invariant.
    spec fn inv(&self) -> bool;

    /// The IPv4 protocol number handled.
    spec fn spec_protocol(&self) -> u8;

    /// What handling `pkt` does: the handler `self` and the answer buffer
    /// `b0` become `after` and `b1`, with result `r`.
    spec fn handles(
        &self,
        pkt: Ipv4Packet,
        b0: Seq<u8>,
        after: Self,
        b1: Seq<u8>,
        r: Result<usize, ProtocolError>,
    ) -> bool;

    /// Returns the IPv4 protocol number handled.
    fn protocol(&self) -> (p: u8)
        ensures
            p == self.spec_protocol(),
    ;

    /// Handles `pkt`, writing the IPv4 payload of the answer at the start of
    /// `buf`; returns its length (0: no answer).
    fn handle_protocol(&mut self, pkt: &Ipv4Packet, buf: &mut [u8]) -> (r: Result<usize, ProtocolError>)
        requires
            old(self).inv(),
            pkt.wf(),
            old(buf)@.len() >= PROTOCOL_BUF_LEN,
        ensures
            final(self).inv(),
            final(self).spec_protocol() == old(self).spec_protocol(),
            final(buf)@.len() == old(buf)@.len(),
            r matches Ok(n) ==> n <= PROTOCOL_BUF_LEN,
            old(self).handles(*pkt, old(buf)@, *final(self), final(buf)@, r),
    ;
}

/// Handles the datagrams sent to one UDP port.
pub trait PortHandler: Sized {
    /// The handler's own invariant.
    spec fn inv(&self) -> bool;

    /// The UDP port handled.
    spec fn spec_port(&self) -> u16;

    /// What handling the datagram payload `data` does: the handler `self`
    /// and the answer buffer `b0` become `after` and `b1`, with result `r`.
    spec fn serves(
        &self,
        data: Seq<u8>,
        b0: Seq<u8>,
        after: Self,
        b1: Seq<u8>,
        r: Result<usize, ProtocolError>,
    ) -> bool;

    /// Returns the UDP port handled.
    fn port(&self) -> (p: u16)
        ensures
            p == self.spec_port(),
    ;

    /// Handles the payload `data` of a datagram, writing the payload of the
    /// answer at the start of `buf`; returns its length (0: no answer).
    fn handle_port(&mut self, data: &[u8], buf: &mut [u8]) -> (r: Result<usize, ProtocolError>)
        requires
            old(self).inv(),
            old(buf)@.len() >= PORT_BUF_LEN,
        ensures
            final(self).inv(),
            final(self).spec_port() == old(self).spec_port(),
            final(buf)@.len() == old(buf)@.len(),
            r matches Ok(n) ==> n <= PORT_BUF_LEN,
            old(self).serves(data@, old(buf)@, *final(self), final(buf)@, r),
    ;
}

/// The index of the handler of `port` among `hs`, if any.
pub open spec fn handler_index<P: PortHandler>(hs: Seq<P>, port: u16) -> Option<int> {
    if exists|i: int| 0 <= i < hs.len() && #[trigger] hs[i].spec_port() == port {
        Some(choose|i: int| 0 <= i < hs.len() && #[trigger] hs[i].spec_port() == port)
    } else {
        None
    }
}

/// The handlers once `h` is registered: it replaces the handler of its port,
/// or is added after the others.
pub open spec fn registered<P: PortHandler>(hs: Seq<P>, h: P) -> Seq<P> {
    match handler_index(hs, h.spec_port()) {
        Some(i) => hs.update(i, h),
        None => hs.push(h),
    }
}

/// The UDP header of an answer from port `src` to port `dst` whose whole
/// length is `len`, with no checksum.
pub open spec fn udp_header_bytes(src: u16, dst: u16, len: u16) -> Seq<u8> {
    be16_bytes(src) + be16_bytes(dst) + be16_bytes(len) + seq![0u8, 0u8]
}

/// Dispatches UDP datagrams to the handler registered for their
/// destination port.
pub struct UdpHandler<P> {
    handlers: Vec<P>,
}

impl<P: PortHandler> UdpHandler<P> {
    /// The registered handlers.
    pub closed spec fn spec_handlers(&self) -> Seq<P> {
        self.handlers@
    }

    /// Every handler keeps its invariant and no two handle the same port.
    pub open spec fn wf(&self) -> bool {
        &&& forall|i: int| 0 <= i < self.spec_handlers().len() ==> #[trigger] self.spec_handlers()[i].inv()
        &&& forall|i: int, j: int|
            0 <= i < self.spec_handlers().len() && 0 <= j < self.spec_handlers().len() && i != j
                ==> #[trigger] self.spec_handlers()[i].spec_port()
                != #[trigger] self.spec_handlers()[j].spec_port()
    }

    /// Creates a handler with no port handlers registered.
    pub fn new() -> (u: Self)
        ensures
            u.wf(),
            u.spec_handlers() == Seq::<P>::empty(),
    {
        UdpHandler { handlers: Vec::new() }
    }

    /// Finds the handler of `port`.
    fn find(&self, port: u16) -> (r: Option<usize>)
        requires
            self.wf(),
        ensures
            r matches Some(i) ==> handler_index(self.spec_handlers(), port) == Some(i as int),
            r is None ==> handler_index(self.spec_handlers(), port) is None,
    {
        let mut i: usize = 0;
        while i < self.handlers.len()
            invariant
                self.wf(),
                i <= self.handlers@.len(),
                forall|k: int| 0 <= k < i ==> #[trigger] self.handlers@[k].spec_port() != port,
            decreases self.handlers@.len() - i,
        {
            if self.handlers[i].port() == port {
                proof {
                    let hs = self.spec_handlers();
                    assert(hs[i as int].spec_port() == port);
                    let c = choose|k: int| 0 <= k < hs.len() && #[trigger] hs[k].spec_port() == port;
                    if c != i as int {
                        assert(hs[c].spec_port() != hs[i as int].spec_port());
                    }
                }
                return Some(i);
            }
            i = i + 1;
        }
        None
    }

    /// Registers a port handler: it serves the port it reports, replacing
    /// any handler registered for that port before.
    ///
    /// ### Arguments
    /// * `handler` - Implementation of a `PortHandler`
    pub fn register_port_handler(&mut self, handler: P)
        requires
            old(self).wf(),
            handler.inv(),
        ensures
            final(self).wf(),
            final(self).spec_handlers() == registered(old(self).spec_handlers(), handler),
    {
        let port = handler.port();
        match self.find(port) {
            Some(i) => {
                self.handlers.set(i, handler);
            },
            None => {
                self.handlers.push(handler);
            },
        }
        assert forall|i: int, j: int|
            0 <= i < self.spec_handlers().len() && 0 <= j < self.spec_handlers().len() && i != j
                implies #[trigger] self.spec_handlers()[i].spec_port()
            != #[trigger] self.spec_handlers()[j].spec_port() by {
            if i < old(self).spec_handlers().len() && j < old(self).spec_handlers().len() {
                assert(old(self).spec_handlers()[i].spec_port() != old(self).spec_handlers()[j].spec_port()
                    || self.spec_handlers()[i] == handler || self.spec_handlers()[j] == handler);
            }
        }
    }

    /// Handles the UDP datagram carried by `pkt`: hands its payload to the
    /// handler of its destination port and, when that handler answers,
    /// prefixes the answer with a UDP header from the destination port back
    /// to the source port (no checksum). Datagrams to a port with no
    /// handler get no answer.
    pub fn handle_protocol(&mut self, pkt: &Ipv4Packet, buf: &mut [u8]) -> (r: Result<
        usize,
        ProtocolError,
    >)
        requires
            old(self).wf(),
            pkt.wf(),
            old(buf)@.len() >= PROTOCOL_BUF_LEN,
        ensures
            final(self).wf(),
            final(buf)@.len() == old(buf)@.len(),
            r matches Ok(n) ==> n <= PROTOCOL_BUF_LEN,
            udp_outcome(*old(self), *final(self), *pkt, old(buf)@, final(buf)@, r),
    {
        let payload = pkt.payload();
        if payload.len() < UDP_HDR_SZ {
            return Err(ProtocolError::NotEnoughData(payload.len(), UDP_HDR_SZ));
        }
        let src_port: u16 = (payload[0] as u16) * 256 + payload[1] as u16;
        let dst_port: u16 = (payload[2] as u16) * 256 + payload[3] as u16;
        match self.find(dst_port) {
            None => Ok(0),
            Some(i) => {
                let ghost hs0 = self.handlers@;
                let data = &payload[UDP_HDR_SZ..payload.len()];
                let mut room = slice_to_vec(&buf[UDP_HDR_SZ..buf.len()]);
                let ghost room0 = room@;
                let mut h = self.handlers.remove(i);
                let ghost h0 = h;
                let res = h.handle_port(data, room.as_mut_slice());
                let ghost room1 = room@;
                self.handlers.insert(i, h);
                assert(self.handlers@ =~= hs0.update(i as int, h));
                copy_into(buf, UDP_HDR_SZ, room.as_slice());
                let ghost body = buf@.subrange(UDP_HDR_SZ as int, buf@.len() as int);
                assert(body =~= room1);
                assert(h0.serves(data@, room0, h, room1, res));
                assert(data@ =~= payload@.subrange(UDP_HDR_SZ as int, payload@.len() as int));
                assert(room0 =~= old(buf)@.subrange(UDP_HDR_SZ as int, old(buf)@.len() as int));
                assert(h0 == old(self).spec_handlers()[i as int]);
                assert(h == self.spec_handlers()[i as int]);
                assert forall|a: int, b: int|
                    0 <= a < self.spec_handlers().len() && 0 <= b < self.spec_handlers().len() && a
                        != b implies #[trigger] self.spec_handlers()[a].spec_port()
                    != #[trigger] self.spec_handlers()[b].spec_port() by {
                    assert(hs0[a].spec_port() != hs0[b].spec_port());
                }
                match res {
                    Ok(len) => {
                        let total = len + UDP_HDR_SZ;
                        let t: u16 = total as u16;
                        buf[0] = (dst_port / 256) as u8;
                        buf[1] = (dst_port % 256) as u8;
                        buf[2] = (src_port / 256) as u8;
                        buf[3] = (src_port % 256) as u8;
                        buf[4] = (t / 256) as u8;
                        buf[5] = (t % 256) as u8;
                        buf[6] = 0;
                        buf[7] = 0;
                        assert(buf@.subrange(0, 8) =~= udp_header_bytes(dst_port, src_port, t));
                        assert(buf@.subrange(UDP_HDR_SZ as int, buf@.len() as int) =~= body);
                        assert(old(self).spec_handlers()[i as int].serves(
                            pkt.spec_payload().subrange(UDP_HDR_SZ as int, pkt.spec_payload().len() as int),
                            old(buf)@.subrange(UDP_HDR_SZ as int, old(buf)@.len() as int),
                            self.spec_handlers()[i as int],
                            buf@.subrange(UDP_HDR_SZ as int, buf@.len() as int),
                            res,
                        ));
                        assert(udp_result(res) == Ok::<usize, ProtocolError>(total));
                        Ok(total)
                    },
                    Err(e) => {
                        assert(buf@.subrange(0, 8) =~= old(buf)@.subrange(0, 8));
                        assert(old(self).spec_handlers()[i as int].serves(
                            pkt.spec_payload().subrange(UDP_HDR_SZ as int, pkt.spec_payload().len() as int),
                            old(buf)@.subrange(UDP_HDR_SZ as int, old(buf)@.len() as int),
                            self.spec_handlers()[i as int],
                            buf@.subrange(UDP_HDR_SZ as int, buf@.len() as int),
                            res,
                        ));
                        assert(udp_result(res) == Err::<usize, ProtocolError>(e));
                        Err(e)
                    },
                }
            },
        }
    }
}

/// The result of the UDP handler once the port handler gave `res`: an
/// answer grows by the UDP header, an error is passed on.
pub open spec fn udp_result(res: Result<usize, ProtocolError>) -> Result<usize, ProtocolError> {
    match res {
        Ok(n) => Ok((n + UDP_HDR_SZ) as usize),
        Err(e) => Err(e),
    }
}

/// The port handler `h0`, given the datagram payload `data` and the room
/// `b0` after the UDP header, became `h1` and left `b1` there, and the UDP
/// handler passed on what it returned as `r`.
pub open spec fn dispatched<P: PortHandler>(
    h0: P,
    data: Seq<u8>,
    b0: Seq<u8>,
    h1: P,
    b1: Seq<u8>,
    r: Result<usize, ProtocolError>,
) -> bool {
    exists|res: Result<usize, ProtocolError>|
        #[trigger] h0.serves(data, b0, h1, b1, res) && r == udp_result(res)
}

/// What handling the UDP datagram of `pkt` does: `s0` and `b0` are the
/// handler and the answer buffer before, `s1` and `b1` after, `r` the result.
pub open spec fn udp_outcome<P: PortHandler>(
    s0: UdpHandler<P>,
    s1: UdpHandler<P>,
    pkt: Ipv4Packet,
    b0: Seq<u8>,
    b1: Seq<u8>,
    r: Result<usize, ProtocolError>,
) -> bool {
    &&& pkt.spec_payload().len() < UDP_HDR_SZ ==> (r matches Err(
        ProtocolError::NotEnoughData(got, exp),
    ) && got == pkt.spec_payload().len() && exp == UDP_HDR_SZ && s1.spec_handlers()
        == s0.spec_handlers() && b1 == b0)
    &&& pkt.spec_payload().len() >= UDP_HDR_SZ ==> ({
        let p = pkt.spec_payload();
        let src = be16(p[0], p[1]);
        let dst = be16(p[2], p[3]);
        match handler_index(s0.spec_handlers(), dst) {
            None => r == Ok::<usize, ProtocolError>(0) && s1.spec_handlers()
                == s0.spec_handlers() && b1 == b0,
            Some(i) => {
                &&& s1.spec_handlers().len() == s0.spec_handlers().len()
                &&& forall|j: int|
                    0 <= j < s0.spec_handlers().len() && j != i ==> s1.spec_handlers()[j] == s0.spec_handlers()[j]
                &&& s1.spec_handlers()[i].spec_port() == dst
                &&& dispatched(
                    s0.spec_handlers()[i],
                    p.subrange(UDP_HDR_SZ as int, p.len() as int),
                    b0.subrange(UDP_HDR_SZ as int, b0.len() as int),
                    s1.spec_handlers()[i],
                    b1.subrange(UDP_HDR_SZ as int, b1.len() as int),
                    r,
                )
                &&& r matches Ok(n) ==> n >= UDP_HDR_SZ && b1.subrange(0, 8)
                    == udp_header_bytes(dst, src, n as u16)
                &&& r is Err ==> b1.subrange(0, 8) == b0.subrange(0, 8)
            },
        }
    })
}

impl<P: PortHandler> ProtocolHandler for UdpHandler<P> {
    open spec fn inv(&self) -> bool {
        self.wf()
    }

    open spec fn spec_protocol(&self) -> u8 {
        NET_PROTOCOL_UDP
    }

    open spec fn handles(
        &self,
        pkt: Ipv4Packet,
        b0: Seq<u8>,
        after: Self,
        b1: Seq<u8>,
        r: Result<usize, ProtocolError>,
    ) -> bool {
        udp_outcome(*self, after, pkt, b0, b1, r)
    }

    fn protocol(&self) -> (p: u8) {
        NET_PROTOCOL_UDP
    }

    fn handle_protocol(&mut self, pkt: &Ipv4Packet, buf: &mut [u8]) -> (r: Result<usize, ProtocolError>) {
        UdpHandler::handle_protocol(self, pkt, buf)
    }
}

/// The ICMP echo reply to the echo request `req`: bytes 4 and on of the
/// request after a zero type and code, with the checksum of the reply.
pub open spec fn echo_answer(req: Seq<u8>) -> Seq<u8> {
    echo_filled(Seq::new(req.len(), |i: int| 0u8), req)
}

/// What handling the ICMP message of `pkt` does to the answer buffer (`b0`
/// before, `b1` after), with result `r`: an echo request is answered by its
/// echo reply at the start of the buffer, unless it is cut short (an error)
/// or longer than the room for an answer (no answer); other messages get
/// no answer.
pub open spec fn echo_outcome(pkt: Ipv4Packet, b0: Seq<u8>, b1: Seq<u8>, r: Result<usize, ProtocolError>) -> bool {
    let p = pkt.spec_payload();
    if p.len() >= 1 && p[0] == ICMP_ECHO_REQUEST {
        if p.len() < 4 {
            (r matches Err(ProtocolError::NotEnoughData(got, exp)) && got == p.len() && exp == 4) && b1
                == b0
        } else if p.len() <= PROTOCOL_BUF_LEN {
            &&& r == Ok::<usize, ProtocolError>(p.len() as usize)
            &&& b1.len() == b0.len()
            &&& b1.subrange(0, p.len() as int) == echo_answer(p)
            &&& b1.subrange(p.len() as int, b1.len() as int) == b0.subrange(p.len() as int, b0.len() as int)
        } else {
            r == Ok::<usize, ProtocolError>(0) && b1 == b0
        }
    } else {
        r == Ok::<usize, ProtocolError>(0) && b1 == b0
    }
}

/// Writes the echo reply to the request `req` at the start of `buf`, the
/// rest of which keeps its bytes; returns the length of the reply.
fn answer_echo(req: &[u8], buf: &mut [u8]) -> (n: usize)
    requires
        4 <= req@.len() <= PROTOCOL_BUF_LEN,
        req@.len() <= old(buf)@.len(),
    ensures
        n == req@.len(),
        final(buf)@.len() == old(buf)@.len(),
        final(buf)@.subrange(0, n as int) == echo_answer(req@),
        final(buf)@.subrange(n as int, final(buf)@.len() as int) == old(buf)@.subrange(
            n as int,
            old(buf)@.len() as int,
        ),
{
    let n = req.len();
    let mut reply: Vec<u8> = vec![0u8; n];
    assert(reply@ =~= Seq::new(n as nat, |i: int| 0u8));
    let w = write_echo_reply(req, reply.as_mut_slice());
    copy_into(buf, 0, reply.as_slice());
    assert(buf@.subrange(n as int, buf@.len() as int) =~= old(buf)@.subrange(
        n as int,
        old(buf)@.len() as int,
    ));
    w
}

/// Answers ICMP echo requests addressed to the router.
#[derive(Debug)]
pub struct IcmpHandler {}

impl IcmpHandler {
    /// Creates an ICMP handler.
    pub fn new() -> (h: IcmpHandler) {
        IcmpHandler {}
    }
}

impl ProtocolHandler for IcmpHandler {
    open spec fn inv(&self) -> bool {
        true
    }

    open spec fn spec_protocol(&self) -> u8 {
        NET_PROTOCOL_ICMP
    }

    open spec fn handles(
        &self,
        pkt: Ipv4Packet,
        b0: Seq<u8>,
        after: Self,
        b1: Seq<u8>,
        r: Result<usize, ProtocolError>,
    ) -> bool {
        echo_outcome(pkt, b0, b1, r)
    }

    fn protocol(&self) -> (p: u8) {
        NET_PROTOCOL_ICMP
    }

    fn handle_protocol(&mut self, pkt: &Ipv4Packet, buf: &mut [u8]) -> (r: Result<usize, ProtocolError>) {
        let payload = pkt.payload();
        if payload.len() >= 1 && payload[0] == ICMP_ECHO_REQUEST {
            let n = payload.len();
            if n < 4 {
                return Err(ProtocolError::NotEnoughData(n, 4));
            }
            if n > PROTOCOL_BUF_LEN {
                return Ok(0);
            }
            Ok(answer_echo(payload, buf))
        } else {
            Ok(0)
        }
    }
}

/// No two handlers of `hs` handle the same port.
pub open spec fn ports_unique<P: PortHandler>(hs: Seq<P>) -> bool {
    forall|i: int, j: int|
        0 <= i < hs.len() && 0 <= j < hs.len() && i != j ==> #[trigger] hs[i].spec_port()
            != #[trigger] hs[j].spec_port()
}

/// With unique ports, the handler of a port is found where it stands.
pub proof fn lemma_handler_index_at<P: PortHandler>(hs: Seq<P>, i: int)
    requires
        ports_unique(hs),
        0 <= i < hs.len(),
    ensures
        handler_index(hs, hs[i].spec_port()) == Some(i),
{
    let port = hs[i].spec_port();
    assert(0 <= i < hs.len() && hs[i].spec_port() == port);
    let c = choose|k: int| 0 <= k < hs.len() && #[trigger] hs[k].spec_port() == port;
    if c != i {
        assert(hs[c].spec_port() != hs[i].spec_port());
    }
}

/// Registering a port handler makes it the handler of its port, keeps the
/// ports unique, and leaves the handler of every other port as it was.
pub proof fn lemma_register_then_find<P: PortHandler>(hs: Seq<P>, h: P)
    requires
        ports_unique(hs),
    ensures
        ports_unique(registered(hs, h)),
        handler_index(registered(hs, h), h.spec_port()) matches Some(i) && registered(hs, h)[i] == h,
        forall|q: u16|
            q != h.spec_port() ==> match #[trigger] handler_index(hs, q) {
                Some(i) => handler_index(registered(hs, h), q) == Some(i) && registered(hs, h)[i]
                    == hs[i],
                None => handler_index(registered(hs, h), q) is None,
            },
{
    let r = registered(hs, h);
    match handler_index(hs, h.spec_port()) {
        Some(i) => {
            assert(0 <= i < hs.len() && hs[i].spec_port() == h.spec_port());
            assert(ports_unique(r)) by {
                assert forall|a: int, b: int|
                    0 <= a < r.len() && 0 <= b < r.len() && a != b implies #[trigger] r[a].spec_port()
                    != #[trigger] r[b].spec_port() by {
                    if a != i && b != i {
                        assert(hs[a].spec_port() != hs[b].spec_port());
                    } else if a == i {
                        assert(hs[i].spec_port() != hs[b].spec_port());
                    } else {
                        assert(hs[a].spec_port() != hs[i].spec_port());
                    }
                }
            }
            lemma_handler_index_at(r, i);
        },
        None => {
            assert forall|k: int| 0 <= k < hs.len() implies #[trigger] hs[k].spec_port() != h.spec_port() by {
                if hs[k].spec_port() == h.spec_port() {
                    assert(0 <= k < hs.len() && hs[k].spec_port() == h.spec_port());
                }
            }
            assert(ports_unique(r)) by {
                assert forall|a: int, b: int|
                    0 <= a < r.len() && 0 <= b < r.len() && a != b implies #[trigger] r[a].spec_port()
                    != #[trigger] r[b].spec_port() by {
                    if a < hs.len() && b < hs.len() {
                        assert(hs[a].spec_port() != hs[b].spec_port());
                    } else if a < hs.len() {
                        assert(hs[a].spec_port() != h.spec_port());
                    } else {
                        assert(hs[b].spec_port() != h.spec_port());
                    }
                }
            }
            lemma_handler_index_at(r, hs.len() as int);
        },
    }
    assert forall|q: u16| q != h.spec_port() implies match #[trigger] handler_index(hs, q) {
        Some(i) => handler_index(r, q) == Some(i) && r[i] == hs[i],
        None => handler_index(r, q) is None,
    } by {
        match handler_index(hs, q) {
            Some(i) => {
                let c = choose|k: int| 0 <= k < hs.len() && #[trigger] hs[k].spec_port() == q;
                assert(0 <= c < hs.len() && hs[c].spec_port() == q);
                assert(i == c);
                assert(r[i] == hs[i]);
                lemma_handler_index_at(r, i);
            },
            None => {
                if exists|k: int| 0 <= k < r.len() && #[trigger] r[k].spec_port() == q {
                    let k = choose|k: int| 0 <= k < r.len() && #[trigger] r[k].spec_port() == q;
                    if k < hs.len() && r[k] == hs[k] {
                        assert(0 <= k < hs.len() && hs[k].spec_port() == q);
                    }
                }
            },
        }
    }
}

} // verus!
