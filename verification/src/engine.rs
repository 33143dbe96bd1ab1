//! The relay engine: the tables of reservations and circuits, and the events that change
//! them.

use vstd::prelude::*;
use crate::circuit::{Circuit, CircuitState, CircuitView, CloseReason, Direction};
use crate::clock::add_capped;
use crate::error::RelayError;
use crate::identity::{ed25519_peer_id, PeerIdentity};
use crate::ledger::ResourceLedger;
use crate::limits::Limits;
use crate::reservation::{Reservation, ReservationView, Voucher, VoucherView};
use crate::state::{
    after_accept, after_chunk, apart_from, carrying, closing_for, closing_overdue, in_time,
    involving, lapsed, out_of_time, unexpired, waiting, EngineState,
};
use crate::laws::{lemma_connect_inv, lemma_entered_inv, lemma_settled_inv};
use crate::tally::{
    lemma_collecting_step, lemma_filter_step, lemma_tally_push, lemma_tally_remove,
    lemma_thinning_step, tally,
};

verus! {

/// What the tables of reservations hold, as mathematical values.
pub open spec fn reservation_views(rs: Seq<Reservation>) -> Seq<ReservationView> {
    rs.map_values(|r: Reservation| r@)
}

/// What the tables of circuits hold, as mathematical values.
pub open spec fn circuit_views(cs: Seq<Circuit>) -> Seq<CircuitView> {
    cs.map_values(|c: Circuit| c@)
}

/// What a request to stop at a target says, as mathematical values.
pub struct StopRequestView {
    pub circuit: CircuitView,
    pub voucher: VoucherView,
}

/// What the relay sends to the target of a circuit: the circuit, which names the peer
/// that asked for it, and the voucher of the target's reservation.
#[derive(Debug)]
pub struct StopRequest {
    pub circuit: Circuit,
    pub voucher: Voucher,
}

impl View for StopRequest {
    type V = StopRequestView;

    open spec fn view(&self) -> StopRequestView {
        StopRequestView { circuit: self.circuit@, voucher: self.voucher@ }
    }
}

/// Which circuits are to be closed in one pass over the table.
enum Purge {
    /// Those that have no time left at `now`.
    Overdue { accept_timeout: u64, now: u64 },
    /// Those in which `peer` takes part, closed for `reason`.
    Peer { peer: PeerIdentity, reason: CloseReason },
}

impl Purge {
    /// The condition of being closed.
    spec fn hits(self) -> spec_fn(CircuitView) -> bool {
        match self {
            Purge::Overdue { accept_timeout, now } => out_of_time(accept_timeout, now),
            Purge::Peer { peer, reason } => involving(peer@),
        }
    }

    /// The condition of staying.
    spec fn keeps(self) -> spec_fn(CircuitView) -> bool {
        match self {
            Purge::Overdue { accept_timeout, now } => in_time(accept_timeout, now),
            Purge::Peer { peer, reason } => apart_from(peer@),
        }
    }

    /// How a circuit is closed.
    spec fn closes(self) -> spec_fn(CircuitView) -> CircuitView {
        match self {
            Purge::Overdue { accept_timeout, now } => closing_overdue(),
            Purge::Peer { peer, reason } => closing_for(reason),
        }
    }

    /// Whether the circuit `c` is to be closed.
    fn strikes(&self, c: &Circuit) -> (hit: bool)
        ensures
            hit == (self.hits())(c@),
            hit != (self.keeps())(c@),
    {
        match self {
            Purge::Overdue { accept_timeout, now } => c.is_overdue(*accept_timeout, *now),
            Purge::Peer { peer, reason } => c.involves(peer),
        }
    }

    /// The reason for which the circuit `c` is closed.
    fn reason_for(&self, c: &Circuit) -> (reason: CloseReason)
        ensures
            c@.shut(reason) == (self.closes())(c@),
    {
        match self {
            Purge::Overdue { accept_timeout, now } => c.overdue_reason(),
            Purge::Peer { peer, reason } => *reason,
        }
    }
}

/// What a sweep removed.
#[derive(Debug)]
pub struct SweepReport {
    /// The reservations that had run out.
    pub expired: Vec<Reservation>,
    /// The circuits that had no time left, as they were closed.
    pub closed: Vec<Circuit>,
}

/// What was given up for a peer that was lost.
#[derive(Debug)]
pub struct Teardown {
    /// The reservation that the peer held.
    pub reservation: Option<Reservation>,
    /// The circuits in which the peer took part, as they were closed.
    pub closed: Vec<Circuit>,
}

/// The relay engine. It alone changes the tables and the ledger, one event at a time.
pub struct RelayEngine {
    limits: Limits,
    seed: [u8; 32],
    local: PeerIdentity,
    reservations: Vec<Reservation>,
    circuits: Vec<Circuit>,
    ledger: ResourceLedger,
    next_circuit: u64,
}

impl View for RelayEngine {
    type V = EngineState;

    closed spec fn view(&self) -> EngineState {
        EngineState {
            limits: self.limits,
            seed: self.seed@,
            reservations: reservation_views(self.reservations@),
            circuits: circuit_views(self.circuits@),
            ledger: self.ledger,
            next_circuit: self.next_circuit,
        }
    }
}

impl RelayEngine {
    /// The identity under which the relay is known.
    pub closed spec fn local_id(&self) -> Seq<u8> {
        self.local@
    }

    /// Whether the engine is in order: what holds of the relay between any two events
    /// holds, and its identity is the one that belongs to its key.
    pub closed spec fn wf(&self) -> bool {
        &&& self@.inv()
        &&& self.local@ == ed25519_peer_id(self.seed@)
    }

    /// An engine that is in order holds a state of which the invariant holds.
    pub proof fn lemma_wf_gives_inv(&self)
        requires
            self.wf(),
        ensures
            self@.inv(),
            self.local_id() == ed25519_peer_id(self@.seed),
    {
    }

    /// A relay that has served nobody yet, with the key made from `seed`.
    pub fn new(seed: [u8; 32], limits: Limits) -> (engine: RelayEngine)
        ensures
            engine.wf(),
            engine@ == EngineState::initial(seed@, limits),
            engine.local_id() == ed25519_peer_id(seed@),
    {
        let local = PeerIdentity::from_seed(&seed);
        let engine = RelayEngine {
            limits,
            seed,
            local,
            reservations: Vec::new(),
            circuits: Vec::new(),
            ledger: ResourceLedger { reservations: 0, circuits: 0, pending: 0, bytes_relayed: 0 },
            next_circuit: 0,
        };
        proof {
            assert(engine@.reservations =~= Seq::empty());
            assert(engine@.circuits =~= Seq::empty());
        }
        engine
    }

    /// The identity under which the relay is known.
    pub fn local_peer(&self) -> (id: &PeerIdentity)
        ensures
            id@ == self.local_id(),
    {
        &self.local
    }

    /// The limits that the relay enforces.
    pub fn limits(&self) -> (limits: Limits)
        ensures
            limits == self@.limits,
    {
        self.limits
    }

    /// The counters of the relay.
    pub fn ledger(&self) -> (ledger: ResourceLedger)
        ensures
            ledger == self@.ledger,
    {
        self.ledger
    }

    /// Finds the place of the reservation that `peer` holds.
    fn find_reservation(&self, peer: &PeerIdentity) -> (place: Option<usize>)
        requires
            self.wf(),
        ensures
            match place {
                Some(i) => self@.holds(peer@) && i == self@.slot(peer@) && i < self.reservations.len(),
                None => !self@.holds(peer@),
            },
    {
        let mut i: usize = 0;
        while i < self.reservations.len()
            invariant
                self.wf(),
                i <= self.reservations.len(),
                forall|j: int| 0 <= j < i ==> (#[trigger] self@.reservations[j]).peer != peer@,
            decreases self.reservations.len() - i,
        {
            if self.reservations[i].peer.same_as(peer) {
                assert(self@.reservations[i as int].peer == peer@);
                assert(self@.holds(peer@));
                assert(self@.reservations[self@.slot(peer@)].peer == peer@);
                return Some(i);
            }
            i += 1;
        }
        None
    }

    /// Finds the place of the circuit with this id.
    fn find_circuit(&self, id: u64) -> (place: Option<usize>)
        requires
            self.wf(),
        ensures
            match place {
                Some(i) => self@.has_circuit(id) && i == self@.circuit_slot(id) && i < self.circuits.len(),
                None => !self@.has_circuit(id),
            },
    {
        let mut i: usize = 0;
        while i < self.circuits.len()
            invariant
                self.wf(),
                i <= self.circuits.len(),
                forall|j: int| 0 <= j < i ==> (#[trigger] self@.circuits[j]).id != id,
            decreases self.circuits.len() - i,
        {
            if self.circuits[i].id == id {
                assert(self@.circuits[i as int].id == id);
                assert(self@.has_circuit(id));
                assert(self@.circuits[self@.circuit_slot(id)].id == id);
                return Some(i);
            }
            i += 1;
        }
        None
    }

    /// Puts `c` in the place `i` of the table of circuits, or gives the place up where `c`
    /// is closed, and keeps the ledger in step.
    fn settle(&mut self, i: usize, c: Circuit)
        requires
            old(self).wf(),
            i < old(self).circuits.len(),
            c@.id == old(self)@.circuits[i as int].id,
            c@.src == old(self)@.circuits[i as int].src,
            c@.dst == old(self)@.circuits[i as int].dst,
            c@.closed() || c@.within_quota(),
        ensures
            final(self).wf(),
            final(self)@ == old(self)@.settled(i as int, c@),
            final(self).local_id() == old(self).local_id(),
    {
        let ghost before = self@;
        let ghost now = c@;
        proof {
            assert(before.sound(before.circuits[i as int]));
            lemma_tally_remove(before.circuits, i as int, waiting());
            lemma_tally_remove(before.circuits, i as int, carrying());
        }
        if self.circuits[i].is_pending() {
            self.ledger.pending = self.ledger.pending - 1;
        } else {
            self.ledger.circuits = self.ledger.circuits - 1;
        }
        if c.is_closed() {
            self.circuits.remove(i);
            assert(self@.circuits =~= before.circuits.remove(i as int));
        } else {
            if c.is_pending() {
                self.ledger.pending = self.ledger.pending + 1;
            } else {
                self.ledger.circuits = self.ledger.circuits + 1;
            }
            self.circuits[i] = c;
            assert(self@.circuits =~= before.circuits.update(i as int, now));
        }
        proof {
            lemma_settled_inv(before, i as int, now);
        }
    }

    /// The reservation that `peer` holds, expired or not.
    pub fn reservation(&self, peer: &PeerIdentity) -> (reservation: Option<Reservation>)
        requires
            self.wf(),
        ensures
            match reservation {
                Some(r) => self@.holds(peer@) && r@ == self@.reservation_of(peer@),
                None => !self@.holds(peer@),
            },
    {
        match self.find_reservation(peer) {
            Some(i) => Some(self.reservations[i].clone()),
            None => None,
        }
    }

    /// Whether `peer` holds a reservation that has not run out at `now`.
    pub fn is_reachable(&self, peer: &PeerIdentity, now: u64) -> (yes: bool)
        requires
            self.wf(),
        ensures
            yes == self@.reachable(peer@, now),
    {
        match self.find_reservation(peer) {
            Some(i) => !self.reservations[i].is_expired(now),
            None => false,
        }
    }

    /// The circuit with this id.
    pub fn circuit(&self, id: u64) -> (circuit: Option<Circuit>)
        requires
            self.wf(),
        ensures
            match circuit {
                Some(c) => self@.has_circuit(id) && c@ == self@.circuit(id),
                None => !self@.has_circuit(id),
            },
    {
        match self.find_circuit(id) {
            Some(i) => Some(self.circuits[i].clone()),
            None => None,
        }
    }

    /// Whether a request of `peer` for a reservation would be granted.
    pub fn may_reserve(&self, peer: &PeerIdentity) -> (yes: bool)
        requires
            self.wf(),
        ensures
            yes == self@.may_reserve(peer@),
    {
        match self.find_reservation(peer) {
            Some(_) => true,
            None => self.reservations.len() < self.limits.max_reservations
                && self.limits.max_reservations_per_peer > 0,
        }
    }

    /// Enters `reservation` for its peer: in the place of the one that the peer holds, or
    /// as a new one where there is room. Says whether it was entered.
    pub fn enter(&mut self, reservation: Reservation) -> (entered: bool)
        requires
            old(self).wf(),
        ensures
            final(self).wf(),
            final(self).local_id() == old(self).local_id(),
            final(self)@ == old(self)@.entered(reservation@),
            entered == old(self)@.may_reserve(reservation@.peer),
    {
        let ghost before = self@;
        let ghost r = reservation@;
        proof {
            lemma_entered_inv(before, r);
        }
        match self.find_reservation(&reservation.peer) {
            Some(i) => {
                self.reservations[i] = reservation;
                assert(self@.reservations =~= before.reservations.update(i as int, r));
                true
            },
            None => {
                if self.reservations.len() < self.limits.max_reservations
                    && self.limits.max_reservations_per_peer > 0 {
                    self.reservations.push(reservation);
                    self.ledger.reservations = self.ledger.reservations + 1;
                    assert(self@.reservations =~= before.reservations.push(r));
                    true
                } else {
                    false
                }
            },
        }
    }

    /// Answers a request of `requester` for a reservation at `now`. Where the requester
    /// holds a reservation, it is renewed: a new one takes its place. Else a new one is
    /// entered where the quotas leave room, and the request fails with
    /// `ResourceExhausted` where they do not. The reservation lasts for the configured
    /// time from `now` and carries a voucher signed with the relay's key.
    pub fn handle_reserve(&mut self, requester: &PeerIdentity, now: u64) -> (result: Result<
        Reservation,
        RelayError,
    >)
        requires
            old(self).wf(),
        ensures
            final(self).wf(),
            final(self).local_id() == old(self).local_id(),
            final(self)@ == old(self)@.reserve(requester@, now),
            match result {
                Ok(reservation) => old(self)@.may_reserve(requester@) && reservation@ == old(
                    self,
                )@.grant(requester@, now),
                Err(e) => !old(self)@.may_reserve(requester@) && e == RelayError::ResourceExhausted,
            },
    {
        if !self.may_reserve(requester) {
            return Err(RelayError::ResourceExhausted);
        }
        let ttl = self.limits.reservation_ttl;
        let voucher = Voucher::issue(&self.seed, requester, now, ttl);
        let reservation = Reservation { peer: requester.clone(), created_at: now, ttl, voucher };
        let copy = reservation.clone();
        self.enter(reservation);
        Ok(copy)
    }

    /// Whether there is room for one more circuit between `src` and `dst`: in the table,
    /// in the share of each of the two peers, and among the ids.
    pub fn has_room(&self, src: &PeerIdentity, dst: &PeerIdentity) -> (yes: bool)
        ensures
            yes == self@.has_room(src@, dst@),
    {
        self.circuits.len() < self.limits.max_circuits && self.circuits_of(src)
            < self.limits.max_circuits_per_peer && self.circuits_of(dst)
            < self.limits.max_circuits_per_peer && self.next_circuit < u64::MAX
    }

    /// Answers a request of `initiator` at `now` for a circuit to `target`. It fails with
    /// `NoReservation` unless the target holds a reservation that has not run out, and
    /// with `ResourceExhausted` where it does and there is no room for the circuit. Else a
    /// circuit is entered that waits for the target's answer, and what is to be sent to
    /// the target is returned. Requests are answered in the order in which they come: of
    /// two for the last free place the first gets it.
    pub fn handle_connect(&mut self, initiator: &PeerIdentity, target: &PeerIdentity, now: u64) -> (result:
        Result<StopRequest, RelayError>)
        requires
            old(self).wf(),
        ensures
            final(self).wf(),
            final(self).local_id() == old(self).local_id(),
            final(self)@ == old(self)@.connect(initiator@, target@, now),
            match result {
                Ok(stop) => {
                    &&& old(self)@.reachable(target@, now)
                    &&& old(self)@.has_room(initiator@, target@)
                    &&& stop.circuit@ == old(self)@.opened(initiator@, target@, now)
                    &&& stop.voucher@ == old(self)@.reservation_of(target@).voucher
                },
                Err(e) => if old(self)@.reachable(target@, now) {
                    !old(self)@.has_room(initiator@, target@) && e == RelayError::ResourceExhausted
                } else {
                    e == RelayError::NoReservation
                },
            },
    {
        let ghost before = self@;
        let place = match self.find_reservation(target) {
            None => {
                return Err(RelayError::NoReservation);
            },
            Some(place) => place,
        };
        if self.reservations[place].is_expired(now) {
            return Err(RelayError::NoReservation);
        }
        if !self.has_room(initiator, target) {
            return Err(RelayError::ResourceExhausted);
        }
        let circuit = Circuit {
            id: self.next_circuit,
            src: initiator.clone(),
            dst: target.clone(),
            opened_at: now,
            state: CircuitState::Pending,
            bytes_src_to_dst: 0,
            bytes_dst_to_src: 0,
            max_duration: self.limits.max_circuit_duration,
            max_bytes: self.limits.max_circuit_bytes,
        };
        let ghost c = circuit@;
        let stop = StopRequest { circuit: circuit.clone(), voucher: self.reservations[place].voucher.clone() };
        self.circuits.push(circuit);
        self.ledger.pending = self.ledger.pending + 1;
        self.next_circuit = self.next_circuit + 1;
        proof {
            assert(self@.circuits =~= before.circuits.push(c));
            lemma_tally_push(before.circuits, c, waiting());
            lemma_connect_inv(before, initiator@, target@, now);
        }
        Ok(stop)
    }

    /// Takes note that the target of the circuit `id` accepted it at `now`. A circuit that
    /// waited for its target becomes active, or is closed where the target took too long;
    /// it is returned as it stands afterwards. Else nothing changes.
    pub fn accept_circuit(&mut self, id: u64, now: u64) -> (circuit: Option<Circuit>)
        requires
            old(self).wf(),
        ensures
            final(self).wf(),
            final(self).local_id() == old(self).local_id(),
            final(self)@ == old(self)@.accept(id, now),
            match circuit {
                Some(c) => old(self)@.has_circuit(id) && old(self)@.circuit(id).pending() && c@
                    == after_accept(old(self)@.circuit(id), old(self)@.limits.accept_timeout, now),
                None => !(old(self)@.has_circuit(id) && old(self)@.circuit(id).pending()),
            },
    {
        match self.find_circuit(id) {
            None => None,
            Some(i) => {
                if self.circuits[i].is_pending() {
                    let mut c = self.circuits[i].clone();
                    assert(self@.sound(self@.circuits[i as int]));
                    if c.is_overdue(self.limits.accept_timeout, now) {
                        c.shut(CloseReason::Timeout);
                    } else {
                        c.accept(now);
                    }
                    let snapshot = c.clone();
                    self.settle(i, c);
                    Some(snapshot)
                } else {
                    None
                }
            },
        }
    }

    /// Closes the circuit `id` for `reason` and gives up its place. The closed circuit is
    /// returned, `None` where no circuit has this id.
    pub fn close_circuit(&mut self, id: u64, reason: CloseReason) -> (circuit: Option<Circuit>)
        requires
            old(self).wf(),
        ensures
            final(self).wf(),
            final(self).local_id() == old(self).local_id(),
            final(self)@ == old(self)@.close(id, reason),
            match circuit {
                Some(c) => old(self)@.has_circuit(id) && c@ == old(self)@.circuit(id).shut(reason),
                None => !old(self)@.has_circuit(id),
            },
    {
        match self.find_circuit(id) {
            None => None,
            Some(i) => {
                let mut c = self.circuits[i].clone();
                c.shut(reason);
                let snapshot = c.clone();
                self.settle(i, c);
                Some(snapshot)
            },
        }
    }

    /// Takes note that the target of the circuit `id` refused it. The circuit is closed
    /// and returned where it waited for its target; else nothing changes.
    pub fn refuse_circuit(&mut self, id: u64) -> (circuit: Option<Circuit>)
        requires
            old(self).wf(),
        ensures
            final(self).wf(),
            final(self).local_id() == old(self).local_id(),
            final(self)@ == old(self)@.refuse(id),
            match circuit {
                Some(c) => old(self)@.has_circuit(id) && old(self)@.circuit(id).pending() && c@
                    == old(self)@.circuit(id).shut(CloseReason::PeerRefused),
                None => !(old(self)@.has_circuit(id) && old(self)@.circuit(id).pending()),
            },
    {
        match self.find_circuit(id) {
            None => None,
            Some(i) => {
                if self.circuits[i].is_pending() {
                    self.close_circuit(id, CloseReason::PeerRefused)
                } else {
                    None
                }
            },
        }
    }

    /// Takes note that the writer of the direction `dir` of the circuit `id` closed it.
    /// The circuit is returned as it stands afterwards, `None` where no circuit has this
    /// id.
    pub fn half_close(&mut self, id: u64, dir: Direction) -> (circuit: Option<Circuit>)
        requires
            old(self).wf(),
        ensures
            final(self).wf(),
            final(self).local_id() == old(self).local_id(),
            final(self)@ == old(self)@.half_close(id, dir),
            match circuit {
                Some(c) => old(self)@.has_circuit(id) && c@ == old(self)@.circuit(id).half_closed(dir),
                None => !old(self)@.has_circuit(id),
            },
    {
        match self.find_circuit(id) {
            None => None,
            Some(i) => {
                let mut c = self.circuits[i].clone();
                assert(self@.sound(self@.circuits[i as int]));
                c.half_close(dir);
                let snapshot = c.clone();
                self.settle(i, c);
                Some(snapshot)
            },
        }
    }

    /// Counts a chunk of `len` bytes that arrived at `now` for the direction `dir` of the
    /// circuit `id`. Where that direction forwards and the circuit has time left, the
    /// chunk is forwarded and counted, and the circuit is closed once the counter has
    /// reached the byte quota; where its time is up, it is closed and the chunk is not
    /// forwarded. The circuit is returned as it stands afterwards, `None` where no
    /// circuit has this id.
    pub fn forward(&mut self, id: u64, dir: Direction, len: u64, now: u64) -> (circuit: Option<Circuit>)
        requires
            old(self).wf(),
        ensures
            final(self).wf(),
            final(self).local_id() == old(self).local_id(),
            final(self)@ == old(self)@.forward(id, dir, len, now),
            match circuit {
                Some(c) => old(self)@.has_circuit(id) && c@ == after_chunk(
                    old(self)@.circuit(id),
                    dir,
                    len,
                    now,
                ),
                None => !old(self)@.has_circuit(id),
            },
    {
        match self.find_circuit(id) {
            None => None,
            Some(i) => {
                let mut c = self.circuits[i].clone();
                assert(self@.sound(self@.circuits[i as int]));
                let mut counted = false;
                if c.carries(dir) {
                    if c.is_spent(now) {
                        c.shut(CloseReason::DurationQuota);
                    } else {
                        c.record_chunk(dir, len);
                        counted = true;
                    }
                }
                let snapshot = c.clone();
                self.settle(i, c);
                if counted {
                    self.ledger.bytes_relayed = add_capped(self.ledger.bytes_relayed, len);
                }
                Some(snapshot)
            },
        }
    }

    /// Closes every circuit that `rule` names and gives up its place.
    fn purge(&mut self, rule: &Purge) -> (closed: Vec<Circuit>)
        requires
            old(self).wf(),
        ensures
            final(self).wf(),
            final(self).local_id() == old(self).local_id(),
            final(self)@.circuits == old(self)@.circuits.filter(rule.keeps()),
            circuit_views(closed@) == old(self)@.circuits.filter(rule.hits()).map_values(
                rule.closes(),
            ),
            final(self)@.limits == old(self)@.limits,
            final(self)@.seed == old(self)@.seed,
            final(self)@.reservations == old(self)@.reservations,
            final(self)@.next_circuit == old(self)@.next_circuit,
            final(self)@.ledger.reservations == old(self)@.ledger.reservations,
            final(self)@.ledger.bytes_relayed == old(self)@.ledger.bytes_relayed,
    {
        let ghost before = self@;
        let ghost n = before.circuits.len() as int;
        let mut closed: Vec<Circuit> = Vec::new();
        let mut i: usize = 0;
        let ghost mut k: int = 0;
        proof {
            assert(circuit_views(closed@) =~= Seq::empty());
            assert(before.circuits.subrange(0, 0) =~= Seq::empty());
            reveal(Seq::filter);
        }
        while i < self.circuits.len()
            invariant
                self.wf(),
                self.local_id() == old(self).local_id(),
                self@.limits == before.limits,
                self@.seed == before.seed,
                self@.reservations == before.reservations,
                self@.next_circuit == before.next_circuit,
                self@.ledger.reservations == before.ledger.reservations,
                self@.ledger.bytes_relayed == before.ledger.bytes_relayed,
                n == before.circuits.len(),
                0 <= i <= self.circuits.len(),
                0 <= k <= n,
                self@.circuits.len() - i == n - k,
                self@.circuits.subrange(0, i as int) == before.circuits.subrange(0, k).filter(
                    rule.keeps(),
                ),
                self@.circuits.subrange(i as int, self@.circuits.len() as int)
                    == before.circuits.subrange(k, n),
                circuit_views(closed@) == before.circuits.subrange(0, k).filter(
                    rule.hits(),
                ).map_values(rule.closes()),
            decreases self.circuits.len() - i,
        {
            let ghost cur = self@;
            let ghost shut_before = circuit_views(closed@);
            proof {
                lemma_thinning_step(before.circuits, cur.circuits, i as int, k, rule.keeps());
                lemma_collecting_step(before.circuits, k, rule.hits(), rule.closes(), shut_before);
                assert(cur.sound(cur.circuits[i as int]));
            }
            if rule.strikes(&self.circuits[i]) {
                let mut c = self.circuits[i].clone();
                let reason = rule.reason_for(&c);
                c.shut(reason);
                let snapshot = c.clone();
                self.settle(i, c);
                closed.push(snapshot);
                assert(circuit_views(closed@) =~= shut_before.push(snapshot@));
            } else {
                i += 1;
            }
            proof {
                k = k + 1;
            }
        }
        proof {
            assert(self@.circuits.subrange(0, i as int) =~= self@.circuits);
            assert(before.circuits.subrange(0, n) =~= before.circuits);
        }
        closed
    }

    /// Takes the reservation in place `i` out of the table.
    fn drop_reservation(&mut self, i: usize) -> (reservation: Reservation)
        requires
            old(self).wf(),
            i < old(self).reservations.len(),
        ensures
            final(self).wf(),
            final(self).local_id() == old(self).local_id(),
            reservation@ == old(self)@.reservations[i as int],
            final(self)@ == (EngineState {
                reservations: old(self)@.reservations.remove(i as int),
                ledger: ResourceLedger {
                    reservations: (old(self)@.ledger.reservations - 1) as usize,
                    ..old(self)@.ledger
                },
                ..old(self)@
            }),
    {
        let ghost before = self@;
        let reservation = self.reservations.remove(i);
        self.ledger.reservations = self.ledger.reservations - 1;
        proof {
            let after = self@;
            assert(after.reservations =~= before.reservations.remove(i as int));
            assert forall|a: int, b: int| 0 <= a < b < after.reservations.len() implies (
            #[trigger] after.reservations[a]).peer != (#[trigger] after.reservations[b]).peer by {
                let a0 = if a < i { a } else { a + 1 };
                let b0 = if b < i { b } else { b + 1 };
                assert(after.reservations[a] == before.reservations[a0]);
                assert(after.reservations[b] == before.reservations[b0]);
            }
        }
        reservation
    }

    /// Takes every reservation that has run out at `now` out of the table.
    fn drop_expired(&mut self, now: u64) -> (expired: Vec<Reservation>)
        requires
            old(self).wf(),
        ensures
            final(self).wf(),
            final(self).local_id() == old(self).local_id(),
            reservation_views(expired@) == old(self)@.expired_at(now),
            final(self)@ == (EngineState {
                reservations: old(self)@.reservations.filter(unexpired(now)),
                ledger: ResourceLedger {
                    reservations: old(self)@.reservations.filter(unexpired(now)).len() as usize,
                    ..old(self)@.ledger
                },
                ..old(self)@
            }),
    {
        let ghost before = self@;
        let ghost n = before.reservations.len() as int;
        let mut expired: Vec<Reservation> = Vec::new();
        let mut i: usize = 0;
        let ghost mut k: int = 0;
        proof {
            assert(reservation_views(expired@) =~= Seq::empty());
            assert(before.reservations.subrange(0, 0) =~= Seq::empty());
            reveal(Seq::filter);
        }
        while i < self.reservations.len()
            invariant
                self.wf(),
                self.local_id() == old(self).local_id(),
                self@.limits == before.limits,
                self@.seed == before.seed,
                self@.circuits == before.circuits,
                self@.next_circuit == before.next_circuit,
                self@.ledger.circuits == before.ledger.circuits,
                self@.ledger.pending == before.ledger.pending,
                self@.ledger.bytes_relayed == before.ledger.bytes_relayed,
                n == before.reservations.len(),
                0 <= i <= self.reservations.len(),
                0 <= k <= n,
                self@.reservations.len() - i == n - k,
                self@.reservations.subrange(0, i as int) == before.reservations.subrange(0, k).filter(
                    unexpired(now),
                ),
                self@.reservations.subrange(i as int, self@.reservations.len() as int)
                    == before.reservations.subrange(k, n),
                reservation_views(expired@) == before.reservations.subrange(0, k).filter(lapsed(now)),
            decreases self.reservations.len() - i,
        {
            let ghost cur = self@;
            let ghost gone_before = reservation_views(expired@);
            proof {
                lemma_thinning_step(before.reservations, cur.reservations, i as int, k, unexpired(now));
                lemma_filter_step(before.reservations, k, lapsed(now));
            }
            if self.reservations[i].is_expired(now) {
                let reservation = self.drop_reservation(i);
                expired.push(reservation);
                assert(reservation_views(expired@) =~= gone_before.push(cur.reservations[i as int]));
            } else {
                i += 1;
            }
            proof {
                k = k + 1;
            }
        }
        proof {
            assert(self@.reservations.subrange(0, i as int) =~= self@.reservations);
            assert(before.reservations.subrange(0, n) =~= before.reservations);
        }
        expired
    }

    /// Removes what has run out of time at `now`: the reservations that have expired, the
    /// circuits that have forwarded for their largest duration, and the circuits whose
    /// target has not answered in time. A circuit to a peer whose reservation expires
    /// goes on.
    pub fn expire_sweep(&mut self, now: u64) -> (report: SweepReport)
        requires
            old(self).wf(),
        ensures
            final(self).wf(),
            final(self).local_id() == old(self).local_id(),
            final(self)@ == old(self)@.sweep(now),
            reservation_views(report.expired@) == old(self)@.expired_at(now),
            circuit_views(report.closed@) == old(self)@.overdue_at(now),
    {
        let expired = self.drop_expired(now);
        let rule = Purge::Overdue { accept_timeout: self.limits.accept_timeout, now };
        let closed = self.purge(&rule);
        SweepReport { expired, closed }
    }

    /// Gives up everything that is held for `peer`: its reservation, and every circuit in
    /// which it takes part, which is closed for `reason`.
    pub fn remove_peer(&mut self, peer: &PeerIdentity, reason: CloseReason) -> (teardown: Teardown)
        requires
            old(self).wf(),
        ensures
            final(self).wf(),
            final(self).local_id() == old(self).local_id(),
            final(self)@ == old(self)@.without_peer(peer@),
            match teardown.reservation {
                Some(r) => old(self)@.holds(peer@) && r@ == old(self)@.reservation_of(peer@),
                None => !old(self)@.holds(peer@),
            },
            circuit_views(teardown.closed@) == old(self)@.circuits_with(peer@, reason),
    {
        let reservation = match self.find_reservation(peer) {
            Some(i) => Some(self.drop_reservation(i)),
            None => None,
        };
        let rule = Purge::Peer { peer: peer.clone(), reason };
        let closed = self.purge(&rule);
        Teardown { reservation, closed }
    }

    /// Gives up everything that is held for a peer that stopped answering probes.
    pub fn on_timeout(&mut self, peer: &PeerIdentity) -> (teardown: Teardown)
        requires
            old(self).wf(),
        ensures
            final(self).wf(),
            final(self).local_id() == old(self).local_id(),
            final(self)@ == old(self)@.without_peer(peer@),
            match teardown.reservation {
                Some(r) => old(self)@.holds(peer@) && r@ == old(self)@.reservation_of(peer@),
                None => !old(self)@.holds(peer@),
            },
            circuit_views(teardown.closed@) == old(self)@.circuits_with(peer@, CloseReason::Timeout),
    {
        self.remove_peer(peer, CloseReason::Timeout)
    }

    /// Gives up everything that is held for a peer whose connection was lost.
    pub fn on_disconnect(&mut self, peer: &PeerIdentity) -> (teardown: Teardown)
        requires
            old(self).wf(),
        ensures
            final(self).wf(),
            final(self).local_id() == old(self).local_id(),
            final(self)@ == old(self)@.without_peer(peer@),
            match teardown.reservation {
                Some(r) => old(self)@.holds(peer@) && r@ == old(self)@.reservation_of(peer@),
                None => !old(self)@.holds(peer@),
            },
            circuit_views(teardown.closed@) == old(self)@.circuits_with(
                peer@,
                CloseReason::TransportLost,
            ),
    {
        self.remove_peer(peer, CloseReason::TransportLost)
    }

    /// Counts the circuits in which `peer` takes part.
    pub fn circuits_of(&self, peer: &PeerIdentity) -> (count: usize)
        ensures
            count == self@.circuits_of(peer@),
    {
        let mut count: usize = 0;
        let mut i: usize = 0;
        while i < self.circuits.len()
            invariant
                i <= self.circuits.len(),
                count <= i,
                count == tally(self@.circuits.subrange(0, i as int), involving(peer@)),
            decreases self.circuits.len() - i,
        {
            let hit = self.circuits[i].involves(peer);
            proof {
                let done = self@.circuits.subrange(0, i as int);
                assert(self@.circuits.subrange(0, i + 1) =~= done.push(self@.circuits[i as int]));
                lemma_tally_push(done, self@.circuits[i as int], involving(peer@));
            }
            if hit {
                count += 1;
            }
            i += 1;
        }
        assert(self@.circuits.subrange(0, i as int) =~= self@.circuits);
        count
    }
}

} // verus!
