//! The event dispatcher: it hands each thing that happens to the part of the node that it
//! is for, and says what is to be sent or made known.

use vstd::prelude::*;
use crate::address::{is_address, Multiaddress};
use crate::circuit::{Circuit, CloseReason, Direction};
use crate::discovery::{Announcement, DiscoveryAgent};
use crate::engine::{circuit_views, reservation_views, RelayEngine, StopRequest, SweepReport, Teardown};
use crate::error::RelayError;
use crate::identity::PeerIdentity;
use crate::limits::Limits;
use crate::reservation::Reservation;
use crate::state::{after_accept, after_chunk, EngineState, Event};

verus! {

/// What can happen to the node, as it was read from a connection or a timer.
#[derive(Debug)]
pub enum Inbound {
    /// `peer` asks for a reservation.
    Reserve { peer: PeerIdentity },
    /// `initiator` asks for a circuit to `target`.
    Connect { initiator: PeerIdentity, target: PeerIdentity },
    /// The target of `circuit` accepted it.
    StopAccepted { circuit: u64 },
    /// The target of `circuit` refused it.
    StopRefused { circuit: u64 },
    /// `len` bytes were read for the direction `direction` of `circuit`.
    Chunk { circuit: u64, direction: Direction, len: u64 },
    /// The writer of the direction `direction` of `circuit` closed it.
    HalfClosed { circuit: u64, direction: Direction },
    /// One side of `circuit` closed its stream.
    StreamClosed { circuit: u64 },
    /// The connection to `peer` was closed.
    Disconnected { peer: PeerIdentity },
    /// `peer` did not answer a liveness probe in time.
    ProbeTimedOut { peer: PeerIdentity },
    /// The timer of the sweep fired.
    Tick,
    /// A peer announced its addresses and the address at which it sees the node.
    Announced { announcement: Announcement },
    /// The node listens on a new address, given in its binary form.
    Listening { address: Vec<u8> },
}

/// What the node does about one thing that happened.
#[derive(Debug)]
pub enum Outbound {
    /// Tell the peer that it holds this reservation.
    Reserved { reservation: Reservation },
    /// Tell the peer that its request is rejected for this reason.
    Rejected { reason: RelayError },
    /// Ask the target of a new circuit whether it accepts it.
    Stop { request: StopRequest },
    /// Tell the initiator that the target accepted, and start to forward.
    Connected { circuit: Circuit },
    /// Hand the bytes on; this is the circuit with them counted.
    Forward { circuit: Circuit },
    /// Stop to forward in one direction; this is the circuit as it goes on.
    HalfClosed { circuit: Circuit },
    /// Give up the streams of this circuit; its state says why.
    CircuitClosed { circuit: Circuit },
    /// The sweep removed this.
    Swept { report: SweepReport },
    /// This was given up for a peer that was lost.
    PeerRemoved { teardown: Teardown },
    /// The node listens on an address it did not know.
    NewListenAddress { address: Multiaddress },
    /// A peer sees the node at an address it did not know.
    NewExternalAddress { address: Multiaddress },
    /// Nothing is to be done.
    Nothing,
}

impl Inbound {
    /// What the thing that happened is to the relay engine, if it is anything to it.
    pub open spec fn for_engine(self, now: u64) -> Option<Event> {
        match self {
            Inbound::Reserve { peer } => Some(Event::Reserve { peer: peer@, now }),
            Inbound::Connect { initiator, target } => Some(
                Event::Connect { src: initiator@, dst: target@, now },
            ),
            Inbound::StopAccepted { circuit } => Some(Event::Accept { id: circuit, now }),
            Inbound::StopRefused { circuit } => Some(Event::Refuse { id: circuit }),
            Inbound::Chunk { circuit, direction, len } => Some(
                Event::Chunk { id: circuit, dir: direction, len, now },
            ),
            Inbound::HalfClosed { circuit, direction } => Some(
                Event::HalfClose { id: circuit, dir: direction },
            ),
            Inbound::StreamClosed { circuit } => Some(
                Event::Close { id: circuit, reason: CloseReason::Finished },
            ),
            Inbound::Disconnected { peer } => Some(Event::PeerLost { peer: peer@ }),
            Inbound::ProbeTimedOut { peer } => Some(Event::PeerLost { peer: peer@ }),
            Inbound::Tick => Some(Event::Sweep { now }),
            Inbound::Announced { announcement } => None,
            Inbound::Listening { address } => None,
        }
    }
}

/// The node: the relay engine and the address discovery agent, behind one dispatcher.
pub struct Dispatcher {
    engine: RelayEngine,
    agent: DiscoveryAgent,
}

impl Dispatcher {
    /// Whether the node is in order.
    pub closed spec fn wf(&self) -> bool {
        self.engine.wf() && self.agent.wf()
    }

    /// What the relay engine holds.
    pub closed spec fn relay(&self) -> EngineState {
        self.engine@
    }

    /// The addresses at which the node believes it can be reached.
    pub closed spec fn known(&self) -> Seq<Seq<u8>> {
        self.agent.known()
    }

    /// Whether the node learns an address from an announcement.
    pub closed spec fn learns(&self, version: Seq<char>, observed: Seq<u8>) -> bool {
        self.agent.learns(version, observed)
    }

    /// The addresses that the node knows after `event`.
    pub open spec fn known_after(&self, event: Inbound) -> Seq<Seq<u8>> {
        match event {
            Inbound::Announced { announcement } => if self.learns(
                announcement.protocol_version@,
                announcement.observed@,
            ) {
                self.known().push(announcement.observed@)
            } else {
                self.known()
            },
            Inbound::Listening { address } => if is_address(address@) && !self.known().contains(
                address@,
            ) {
                self.known().push(address@)
            } else {
                self.known()
            },
            _ => self.known(),
        }
    }

    /// Whether `out` is what the node does about `event` at `now`.
    pub open spec fn answers(&self, event: Inbound, now: u64, out: Outbound) -> bool {
        let relay = self.relay();
        match event {
            Inbound::Reserve { peer } => if relay.may_reserve(peer@) {
                out matches Outbound::Reserved { reservation } && reservation@ == relay.grant(
                    peer@,
                    now,
                )
            } else {
                out matches Outbound::Rejected { reason } && reason == RelayError::ResourceExhausted
            },
            Inbound::Connect { initiator, target } => if !relay.reachable(target@, now) {
                out matches Outbound::Rejected { reason } && reason == RelayError::NoReservation
            } else if !relay.has_room(initiator@, target@) {
                out matches Outbound::Rejected { reason } && reason == RelayError::ResourceExhausted
            } else {
                &&& out matches Outbound::Stop { request }
                &&& request.circuit@ == relay.opened(initiator@, target@, now)
                &&& request.voucher@ == relay.reservation_of(target@).voucher
            },
            Inbound::StopAccepted { circuit: id } => if relay.has_circuit(id) && relay.circuit(
                id,
            ).pending() {
                let c = after_accept(relay.circuit(id), relay.limits.accept_timeout, now);
                if c.closed() {
                    out matches Outbound::CircuitClosed { circuit } && circuit@ == c
                } else {
                    out matches Outbound::Connected { circuit } && circuit@ == c
                }
            } else {
                out is Nothing
            },
            Inbound::StopRefused { circuit: id } => if relay.has_circuit(id) && relay.circuit(
                id,
            ).pending() {
                out matches Outbound::CircuitClosed { circuit } && circuit@ == relay.circuit(id).shut(
                    CloseReason::PeerRefused,
                )
            } else {
                out is Nothing
            },
            Inbound::Chunk { circuit: id, direction, len } => if relay.has_circuit(id)
                && relay.circuit(id).carries(direction) {
                let c = after_chunk(relay.circuit(id), direction, len, now);
                if c.closed() {
                    out matches Outbound::CircuitClosed { circuit } && circuit@ == c
                } else {
                    out matches Outbound::Forward { circuit } && circuit@ == c
                }
            } else {
                out is Nothing
            },
            Inbound::HalfClosed { circuit: id, direction } => if relay.has_circuit(id)
                && relay.circuit(id).forwarding() {
                let c = relay.circuit(id).half_closed(direction);
                if c.closed() {
                    out matches Outbound::CircuitClosed { circuit } && circuit@ == c
                } else {
                    out matches Outbound::HalfClosed { circuit } && circuit@ == c
                }
            } else {
                out is Nothing
            },
            Inbound::StreamClosed { circuit: id } => if relay.has_circuit(id) {
                out matches Outbound::CircuitClosed { circuit } && circuit@ == relay.circuit(id).shut(
                    CloseReason::Finished,
                )
            } else {
                out is Nothing
            },
            Inbound::Disconnected { peer } => {
                &&& out matches Outbound::PeerRemoved { teardown }
                &&& match teardown.reservation {
                    Some(r) => relay.holds(peer@) && r@ == relay.reservation_of(peer@),
                    None => !relay.holds(peer@),
                }
                &&& circuit_views(teardown.closed@) == relay.circuits_with(
                    peer@,
                    CloseReason::TransportLost,
                )
            },
            Inbound::ProbeTimedOut { peer } => {
                &&& out matches Outbound::PeerRemoved { teardown }
                &&& match teardown.reservation {
                    Some(r) => relay.holds(peer@) && r@ == relay.reservation_of(peer@),
                    None => !relay.holds(peer@),
                }
                &&& circuit_views(teardown.closed@) == relay.circuits_with(peer@, CloseReason::Timeout)
            },
            Inbound::Tick => {
                &&& out matches Outbound::Swept { report }
                &&& reservation_views(report.expired@) == relay.expired_at(now)
                &&& circuit_views(report.closed@) == relay.overdue_at(now)
            },
            Inbound::Announced { announcement } => if self.learns(
                announcement.protocol_version@,
                announcement.observed@,
            ) {
                out matches Outbound::NewExternalAddress { address } && address@
                    == announcement.observed@
            } else {
                out is Nothing
            },
            Inbound::Listening { address: bytes } => if is_address(bytes@) && !self.known().contains(
                bytes@,
            ) {
                out matches Outbound::NewListenAddress { address } && address@ == bytes@
            } else {
                out is Nothing
            },
        }
    }

    /// A node that has served nobody yet, with the key made from `seed`.
    pub fn new(seed: [u8; 32], limits: Limits, protocol_version: String) -> (node: Dispatcher)
        ensures
            node.wf(),
            node.relay() == EngineState::initial(seed@, limits),
            node.known() == Seq::<Seq<u8>>::empty(),
    {
        Dispatcher { engine: RelayEngine::new(seed, limits), agent: DiscoveryAgent::new(protocol_version) }
    }

    /// The relay engine of the node.
    pub fn engine(&self) -> (engine: &RelayEngine)
        ensures
            engine@ == self.relay(),
            self.wf() ==> engine.wf(),
    {
        &self.engine
    }

    /// The address discovery agent of the node.
    pub fn agent(&self) -> (agent: &DiscoveryAgent)
        ensures
            agent.known() == self.known(),
            self.wf() ==> agent.wf(),
    {
        &self.agent
    }

    /// Hands `event`, which happened at `now`, to the part of the node that it is for, and
    /// says what is to be done about it. The relay engine is after the event what it makes
    /// of it; an announcement or a new address to listen on changes what the node knows
    /// of its addresses and nothing else.
    pub fn dispatch(&mut self, event: Inbound, now: u64) -> (out: Outbound)
        requires
            old(self).wf(),
        ensures
            final(self).wf(),
            final(self).relay() == match event.for_engine(now) {
                Some(e) => old(self).relay().after(e),
                None => old(self).relay(),
            },
            final(self).known() == old(self).known_after(event),
            old(self).answers(event, now, out),
    {
        match event {
            Inbound::Reserve { peer } => match self.engine.handle_reserve(&peer, now) {
                Ok(reservation) => Outbound::Reserved { reservation },
                Err(reason) => Outbound::Rejected { reason },
            },
            Inbound::Connect { initiator, target } => match self.engine.handle_connect(
                &initiator,
                &target,
                now,
            ) {
                Ok(request) => Outbound::Stop { request },
                Err(reason) => Outbound::Rejected { reason },
            },
            Inbound::StopAccepted { circuit } => match self.engine.accept_circuit(circuit, now) {
                Some(circuit) => if circuit.is_closed() {
                    Outbound::CircuitClosed { circuit }
                } else {
                    Outbound::Connected { circuit }
                },
                None => Outbound::Nothing,
            },
            Inbound::StopRefused { circuit } => match self.engine.refuse_circuit(circuit) {
                Some(circuit) => Outbound::CircuitClosed { circuit },
                None => Outbound::Nothing,
            },
            Inbound::Chunk { circuit, direction, len } => {
                let carried = match self.engine.circuit(circuit) {
                    Some(c) => c.carries(direction),
                    None => false,
                };
                match self.engine.forward(circuit, direction, len, now) {
                    Some(circuit) => if !carried {
                        Outbound::Nothing
                    } else if circuit.is_closed() {
                        Outbound::CircuitClosed { circuit }
                    } else {
                        Outbound::Forward { circuit }
                    },
                    None => Outbound::Nothing,
                }
            },
            Inbound::HalfClosed { circuit, direction } => {
                let forwarding = match self.engine.circuit(circuit) {
                    Some(c) => c.is_forwarding(),
                    None => false,
                };
                match self.engine.half_close(circuit, direction) {
                    Some(circuit) => if !forwarding {
                        Outbound::Nothing
                    } else if circuit.is_closed() {
                        Outbound::CircuitClosed { circuit }
                    } else {
                        Outbound::HalfClosed { circuit }
                    },
                    None => Outbound::Nothing,
                }
            },
            Inbound::StreamClosed { circuit } => match self.engine.close_circuit(
                circuit,
                CloseReason::Finished,
            ) {
                Some(circuit) => Outbound::CircuitClosed { circuit },
                None => Outbound::Nothing,
            },
            Inbound::Disconnected { peer } => Outbound::PeerRemoved {
                teardown: self.engine.on_disconnect(&peer),
            },
            Inbound::ProbeTimedOut { peer } => Outbound::PeerRemoved {
                teardown: self.engine.on_timeout(&peer),
            },
            Inbound::Tick => Outbound::Swept { report: self.engine.expire_sweep(now) },
            Inbound::Announced { announcement } => match self.agent.on_announcement(&announcement) {
                Some(address) => Outbound::NewExternalAddress { address },
                None => Outbound::Nothing,
            },
            Inbound::Listening { address } => match Multiaddress::parse(address) {
                Some(address) => {
                    let copy = address.clone();
                    if self.agent.on_listen_address(address) {
                        Outbound::NewListenAddress { address: copy }
                    } else {
                        Outbound::Nothing
                    }
                },
                None => Outbound::Nothing,
            },
        }
    }
}

} // verus!
