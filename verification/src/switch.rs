//! A simple learning Ethernet switch.

use vstd::prelude::*;
use std::collections::HashMap;

use crate::bytes::slice_to_vec;
use crate::error::ProtocolError;
use crate::frame::{frame_matches, EthernetFrame, ETHERNET_HDR_SZ};
use crate::types::{be16, ethertype_of, lemma_mac_len, mac_key_of, MacAddress};

verus! {

broadcast use {lemma_mac_len, vstd::std_specs::hash::group_hash_axioms};

/// A device that can be connected to a switch.
pub trait SwitchPort {
    /// Places a packet in the device's receive queue.
    ///
    /// ### Arguments
    /// * `frame` - Ethernet frame header
    /// * `pkt` - Ethernet frame payload
    fn enqueue(&self, frame: EthernetFrame, pkt: Vec<u8>);
}

/// A device that forwards Ethernet frames between the ports connected to it.
pub trait Switch {
    /// Type of the devices that can be connected.
    type Port;

    /// Connects a device, returning the port it is connected to.
    fn connect(&mut self, port: Self::Port) -> usize;

    /// Processes a packet sent from `port`, forwarding it to the correct devices.
    fn process(&mut self, port: usize, pkt: Vec<u8>) -> Result<(), ProtocolError>;
}

#[verifier::external_type_specification]
#[verifier::external_body]
#[verifier::reject_recursive_types(T)]
pub struct ExSender<T>(flume::Sender<T>);

/// Sends a packet copy into the pcap logger's channel (`flume::Sender::send`);
/// the outcome depends on whether the receiving thread is still alive, so
/// nothing is claimed about it.
#[verifier::external_body]
fn channel_send(tx: &flume::Sender<Vec<u8>>, pkt: Vec<u8>) {
    tx.send(pkt).ok();
}

/// Where a processed frame goes.
#[derive(Clone, Copy, Debug, PartialEq, Eq, Structural)]
pub enum Delivery {
    /// To every connected port except the one it came from.
    Flood { except: usize },
    /// To a single port.
    Port(usize),
    /// Nowhere: the port associated with the destination has no device.
    Discard,
}

/// Sink for a copy of every packet that crosses the switch, if configured.
pub struct PcapLogger {
    tx: Option<flume::Sender<Vec<u8>>>,
    /// The packets handed to the channel so far
    captured: Ghost<Seq<Seq<u8>>>,
}

impl PcapLogger {
    /// A logger that records nothing.
    pub fn disabled() -> (l: PcapLogger)
        ensures
            l.is_enabled() == false,
            l.captured() == Seq::<Seq<u8>>::empty(),
    {
        PcapLogger { tx: None, captured: Ghost(Seq::empty()) }
    }

    /// A logger that sends every packet into `tx`.
    pub fn with_sender(tx: flume::Sender<Vec<u8>>) -> (l: PcapLogger)
        ensures
            l.is_enabled(),
            l.captured() == Seq::<Seq<u8>>::empty(),
    {
        PcapLogger { tx: Some(tx), captured: Ghost(Seq::empty()) }
    }

    /// True when packets are recorded.
    pub closed spec fn is_enabled(&self) -> bool {
        self.tx is Some
    }

    /// The packets handed to the channel so far, oldest first.
    pub closed spec fn captured(&self) -> Seq<Seq<u8>> {
        self.captured@
    }

    /// Hands a copy of `pkt` to the channel, when recording.
    fn log_packet(&mut self, pkt: &[u8])
        ensures
            final(self).is_enabled() == old(self).is_enabled(),
            final(self).captured() == logged(old(self).captured(), old(self).is_enabled(), pkt@),
    {
        match &self.tx {
            Some(tx) => {
                channel_send(tx, slice_to_vec(pkt));
                proof {
                    self.captured@ = self.captured@.push(pkt@);
                }
            },
            None => {},
        }
    }
}

/// The delivery of a frame with destination `dst` arriving on `port`, after
/// the source address has been learned into `cache`.
pub open spec fn spec_delivery(cache: Map<u64, usize>, nports: nat, port: usize, dst: Seq<u8>) -> Delivery {
    if dst == seq![0xFFu8, 0xFF, 0xFF, 0xFF, 0xFF, 0xFF] {
        Delivery::Flood { except: port }
    } else if cache.contains_key(mac_key_of(dst) as u64) {
        let p = cache[mac_key_of(dst) as u64];
        if p < nports {
            Delivery::Port(p)
        } else {
            Delivery::Discard
        }
    } else {
        Delivery::Flood { except: port }
    }
}

/// The capture log once `pkt` has been offered to a logger that records
/// when `enabled`.
pub open spec fn logged(captured: Seq<Seq<u8>>, enabled: bool, pkt: Seq<u8>) -> Seq<Seq<u8>> {
    if enabled {
        captured.push(pkt)
    } else {
        captured
    }
}

/// The ports `0..n` other than `except`, in increasing order.
pub open spec fn flood_targets(n: nat, except: usize) -> Seq<usize>
    decreases n,
{
    if n == 0 {
        Seq::empty()
    } else {
        let rest = flood_targets((n - 1) as nat, except);
        if (n - 1) as usize != except {
            rest.push((n - 1) as usize)
        } else {
            rest
        }
    }
}

/// The ports a frame is handed to, for delivery `d` on a switch of `n`
/// ports: all but the ingress port on a flood, the one port found, or none.
pub open spec fn targets(d: Delivery, n: nat) -> Seq<usize> {
    match d {
        Delivery::Flood { except } => flood_targets(n, except),
        Delivery::Port(q) => seq![q],
        Delivery::Discard => Seq::empty(),
    }
}

/// The deliveries of `frame` and `payload` to each port of `ports`, in
/// order.
pub open spec fn sent_to(ports: Seq<usize>, frame: EthernetFrame, payload: Seq<u8>) -> Seq<
    (usize, EthernetFrame, Seq<u8>),
> {
    ports.map_values(|q: usize| (q, frame, payload))
}

/// The address table after a frame from `src` arrives on `port`.
pub open spec fn learned(cache: Map<u64, usize>, port: usize, src: Seq<u8>) -> Map<u64, usize> {
    cache.insert(mac_key_of(src) as u64, port)
}

/// A switch whose ports are devices of type `P`.
pub struct VirtioSwitch<P> {
    /// Handles to devices connected to switch ports
    ports: Vec<P>,
    /// Map of MAC address keys to switch ports
    cache: HashMap<u64, usize>,
    /// Pcap logger, if configured
    logger: PcapLogger,
    /// Every frame handed to a port so far: the port, the header and the
    /// payload, oldest first
    sent: Ghost<Seq<(usize, EthernetFrame, Seq<u8>)>>,
}

impl<P: SwitchPort> VirtioSwitch<P> {
    /// The address table: MAC address keys to ports.
    pub closed spec fn table(&self) -> Map<u64, usize> {
        self.cache@
    }

    /// Number of connected ports.
    pub closed spec fn port_count(&self) -> nat {
        self.ports@.len()
    }

    /// Every frame handed to a port (`SwitchPort::enqueue`) so far: the
    /// port, the header and the payload, oldest first.
    pub closed spec fn sent(&self) -> Seq<(usize, EthernetFrame, Seq<u8>)> {
        self.sent@
    }

    /// Every packet handed to the pcap logger so far.
    pub closed spec fn captured(&self) -> Seq<Seq<u8>> {
        self.logger.captured()
    }

    /// Whether the pcap logger records.
    pub closed spec fn logging(&self) -> bool {
        self.logger.is_enabled()
    }

    /// Creates a new, empty switch with no ports connected.
    pub fn new(logger: PcapLogger) -> (s: Self)
        ensures
            s.table() == Map::<u64, usize>::empty(),
            s.port_count() == 0,
            s.sent() == Seq::<(usize, EthernetFrame, Seq<u8>)>::empty(),
            s.captured() == logger.captured(),
            s.logging() == logger.is_enabled(),
    {
        VirtioSwitch { ports: Vec::new(), cache: HashMap::new(), logger, sent: Ghost(Seq::empty()) }
    }

    /// Returns the port associated with `mac`, if any.
    pub fn get_port(&self, mac: MacAddress) -> (r: Option<usize>)
        ensures
            r == (if self.table().contains_key(mac_key_of(mac@) as u64) {
                Some(self.table()[mac_key_of(mac@) as u64])
            } else {
                None
            }),
    {
        let k = mac.key();
        match self.cache.get(&k) {
            Some(p) => Some(*p),
            None => None,
        }
    }

    /// Associates `mac` with `port`.
    fn associate_port(&mut self, port: usize, mac: MacAddress)
        ensures
            final(self).table() == learned(old(self).table(), port, mac@),
            final(self).port_count() == old(self).port_count(),
            final(self).sent() == old(self).sent(),
            final(self).captured() == old(self).captured(),
            final(self).logging() == old(self).logging(),
    {
        let k = mac.key();
        self.cache.insert(k, port);
    }

    /// Learns the source address of `frame` on `port` and decides where the
    /// frame goes.
    pub fn route(&mut self, port: usize, frame: &EthernetFrame) -> (d: Delivery)
        ensures
            final(self).table() == learned(old(self).table(), port, frame.src@),
            final(self).port_count() == old(self).port_count(),
            final(self).sent() == old(self).sent(),
            final(self).captured() == old(self).captured(),
            final(self).logging() == old(self).logging(),
            d == spec_delivery(final(self).table(), final(self).port_count(), port, frame.dst@),
    {
        match self.get_port(frame.src) {
            Some(p) if p == port => {
                assert(self.table() == learned(self.table(), port, frame.src@));
            },
            _ => self.associate_port(port, frame.src),
        }
        if frame.dst.is_broadcast() {
            Delivery::Flood { except: port }
        } else {
            match self.get_port(frame.dst) {
                Some(p) => if p < self.ports.len() {
                    Delivery::Port(p)
                } else {
                    Delivery::Discard
                },
                None => Delivery::Flood { except: port },
            }
        }
    }

    /// Connects a device, returning the port it is connected to.
    pub fn connect(&mut self, port: P) -> (idx: usize)
        requires
            old(self).port_count() < usize::MAX,
        ensures
            idx == old(self).port_count(),
            final(self).port_count() == old(self).port_count() + 1,
            final(self).table() == old(self).table(),
            final(self).sent() == old(self).sent(),
            final(self).captured() == old(self).captured(),
            final(self).logging() == old(self).logging(),
    {
        let idx = self.ports.len();
        self.ports.push(port);
        idx
    }

    /// Processes a packet through the switch: learns the port of its source
    /// and sends it to the port of its destination, or floods it to every
    /// other port when the destination is broadcast or not yet known.
    pub fn process(&mut self, port: usize, pkt: Vec<u8>) -> (r: Result<(), ProtocolError>)
        ensures
            pkt@.len() < 14 ==> (r matches Err(ProtocolError::NotEnoughData(got, exp)) && got
                == pkt@.len() && exp == 14),
            pkt@.len() >= 14 && ethertype_of(be16(pkt@[12], pkt@[13])) is None ==> (r matches Err(
                ProtocolError::MalformedPacket(_),
            )),
            pkt@.len() >= 14 && ethertype_of(be16(pkt@[12], pkt@[13])) is Some ==> (r is Ok
                && final(self).table() == learned(old(self).table(), port, pkt@.subrange(6, 12))),
            r is Err ==> final(self).table() == old(self).table(),
            final(self).port_count() == old(self).port_count(),
            final(self).logging() == old(self).logging(),
            switched(*old(self), *final(self), port, pkt@),
    {
        let mut pkt = pkt;
        if pkt.len() < ETHERNET_HDR_SZ {
            return Err(ProtocolError::NotEnoughData(pkt.len(), ETHERNET_HDR_SZ));
        }
        let ghost whole = pkt@;
        self.logger.log_packet(pkt.as_slice());
        let frame = EthernetFrame::extract(&mut pkt)?;
        let ghost sent0 = self.sent@;
        let d = self.route(port, &frame);
        let ghost payload = pkt@;
        let ghost table1 = self.table();
        let ghost captured1 = self.captured();
        let ghost logging1 = self.logging();
        assert(frame.dst@ == whole.subrange(0, 6));
        match d {
            Delivery::Flood { except } => {
                let n = self.ports.len();
                let mut i: usize = 0;
                while i < n
                    invariant
                        n == self.ports@.len(),
                        i <= n,
                        pkt@ == payload,
                        self.table() == table1,
                        self.captured() == captured1,
                        self.logging() == logging1,
                        self.sent@ == sent0 + sent_to(flood_targets(i as nat, except), frame, payload),
                    decreases n - i,
                {
                    if i != except {
                        let copy = pkt.clone();
                        assert(copy@ =~= pkt@);
                        self.ports[i].enqueue(frame, copy);
                        proof {
                            self.sent@ = self.sent@.push((i, frame, payload));
                        }
                    }
                    assert(self.sent@ =~= sent0 + sent_to(flood_targets((i + 1) as nat, except), frame, payload));
                    i = i + 1;
                }
            },
            Delivery::Port(p) => {
                self.ports[p].enqueue(frame, pkt);
                proof {
                    self.sent@ = self.sent@.push((p, frame, payload));
                }
                assert(self.sent@ =~= sent0 + sent_to(seq![p], frame, payload));
            },
            Delivery::Discard => {
                assert(self.sent@ =~= sent0 + sent_to(Seq::empty(), frame, payload));
            },
        }
        Ok(())
    }
}

impl<P: SwitchPort> Switch for VirtioSwitch<P> {
    type Port = P;

    /// Connects a device to the next free port.
    fn connect(&mut self, port: P) -> (idx: usize)
        ensures
            idx == old(self).port_count(),
            final(self).table() == old(self).table(),
            old(self).port_count() < usize::MAX ==> final(self).port_count() == old(self).port_count() + 1,
            old(self).port_count() == usize::MAX ==> final(self).port_count() == old(self).port_count(),
            final(self).sent() == old(self).sent(),
            final(self).captured() == old(self).captured(),
            final(self).logging() == old(self).logging(),
    {
        if self.ports.len() < usize::MAX {
            VirtioSwitch::connect(self, port)
        } else {
            self.ports.len()
        }
    }

    /// Processes a packet sent from `port`.
    fn process(&mut self, port: usize, pkt: Vec<u8>) -> (r: Result<(), ProtocolError>)
        ensures
            pkt@.len() < 14 ==> (r matches Err(ProtocolError::NotEnoughData(got, exp)) && got
                == pkt@.len() && exp == 14),
            pkt@.len() >= 14 && ethertype_of(be16(pkt@[12], pkt@[13])) is None ==> (r matches Err(
                ProtocolError::MalformedPacket(_),
            )),
            pkt@.len() >= 14 && ethertype_of(be16(pkt@[12], pkt@[13])) is Some ==> (r is Ok
                && final(self).table() == learned(old(self).table(), port, pkt@.subrange(6, 12))),
            r is Err ==> final(self).table() == old(self).table(),
            final(self).port_count() == old(self).port_count(),
            final(self).logging() == old(self).logging(),
            switched(*old(self), *final(self), port, pkt@),
    {
        VirtioSwitch::process(self, port, pkt)
    }
}

/// What processing the packet `pkt` from `port` does to what the switch
/// has handed out, `s0` before and `s1` after: a packet too short for an
/// Ethernet header reaches no port and is not recorded; any other is
/// offered to the pcap logger; a frame of unknown type then reaches no
/// port; a frame of known type, once its source is learned, is handed with
/// its payload to the ports its delivery names.
pub open spec fn switched<P: SwitchPort>(s0: VirtioSwitch<P>, s1: VirtioSwitch<P>, port: usize, pkt: Seq<u8>) -> bool {
    if pkt.len() < 14 {
        s1.sent() == s0.sent() && s1.captured() == s0.captured()
    } else {
        &&& s1.captured() == logged(s0.captured(), s0.logging(), pkt)
        &&& ethertype_of(be16(pkt[12], pkt[13])) is None ==> s1.sent() == s0.sent()
        &&& ethertype_of(be16(pkt[12], pkt[13])) is Some ==> forwarded(s0, s1, port, pkt)
    }
}

/// A frame `pkt` of known type from `port` was handed to the ports that
/// its delivery names, after learning its source.
pub open spec fn forwarded<P: SwitchPort>(s0: VirtioSwitch<P>, s1: VirtioSwitch<P>, port: usize, pkt: Seq<u8>) -> bool {
    exists|f: EthernetFrame|
        #[trigger] frame_matches(f, pkt) && s1.sent() == s0.sent() + sent_to(
            targets(
                spec_delivery(s1.table(), s1.port_count(), port, pkt.subrange(0, 6)),
                s1.port_count(),
            ),
            f,
            pkt.subrange(14, pkt.len() as int),
        )
}

/// Learning: after a frame from address `m` arrives on port `p`, a later frame
/// addressed to `m` (arriving on any port, from any other source) goes to `p`
/// alone, provided `p` is a connected port and `m` is not the broadcast address.
pub proof fn lemma_learned_address_is_unicast(
    cache: Map<u64, usize>,
    nports: nat,
    p: usize,
    m: Seq<u8>,
    q: usize,
    other_src: Seq<u8>,
)
    requires
        m.len() == 6,
        other_src.len() == 6,
        other_src != m,
        p < nports,
        m != seq![0xFFu8, 0xFF, 0xFF, 0xFF, 0xFF, 0xFF],
    ensures
        spec_delivery(learned(learned(cache, p, m), q, other_src), nports, q, m) == Delivery::Port(p),
{
    crate::types::lemma_mac_key_bounds(m);
    crate::types::lemma_mac_key_bounds(other_src);
    if mac_key_of(other_src) as u64 == mac_key_of(m) as u64 {
        crate::types::lemma_mac_key_injective(other_src, m);
    }
}

/// A broadcast frame never goes back to the port it came from.
pub proof fn lemma_broadcast_excludes_origin(cache: Map<u64, usize>, nports: nat, port: usize)
    ensures
        spec_delivery(cache, nports, port, seq![0xFFu8, 0xFF, 0xFF, 0xFF, 0xFF, 0xFF])
            == (Delivery::Flood { except: port }),
{
}

} // verus!
