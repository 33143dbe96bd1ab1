//! The relay as a mathematical state, and what each event makes of it.

use vstd::prelude::*;
use crate::circuit::{CircuitState, CircuitView, CloseReason, Direction};
use crate::clock::capped_sum;
use crate::ledger::ResourceLedger;
use crate::limits::Limits;
use crate::reservation::{voucher_for, ReservationView};
use crate::tally::tally;

verus! {

/// The condition of taking part in a circuit as `peer`.
pub open spec fn involving(peer: Seq<u8>) -> spec_fn(CircuitView) -> bool {
    |c: CircuitView| c.involves(peer)
}

/// The condition of taking no part in a circuit as `peer`.
pub open spec fn apart_from(peer: Seq<u8>) -> spec_fn(CircuitView) -> bool {
    |c: CircuitView| !c.involves(peer)
}

/// The condition of waiting for the target's answer.
pub open spec fn waiting() -> spec_fn(CircuitView) -> bool {
    |c: CircuitView| c.pending()
}

/// The condition of forwarding in at least one direction.
pub open spec fn carrying() -> spec_fn(CircuitView) -> bool {
    |c: CircuitView| c.forwarding()
}

/// The condition of having time left at `now`.
pub open spec fn in_time(accept_timeout: u64, now: u64) -> spec_fn(CircuitView) -> bool {
    |c: CircuitView| !c.overdue(accept_timeout, now)
}

/// The condition of having no time left at `now`.
pub open spec fn out_of_time(accept_timeout: u64, now: u64) -> spec_fn(CircuitView) -> bool {
    |c: CircuitView| c.overdue(accept_timeout, now)
}

/// The condition of holding at `now`.
pub open spec fn unexpired(now: u64) -> spec_fn(ReservationView) -> bool {
    |r: ReservationView| !r.expired(now)
}

/// The condition of having run out at `now`.
pub open spec fn lapsed(now: u64) -> spec_fn(ReservationView) -> bool {
    |r: ReservationView| r.expired(now)
}

/// Closing an overdue circuit, for the reason that fits where it stood.
pub open spec fn closing_overdue() -> spec_fn(CircuitView) -> CircuitView {
    |c: CircuitView| c.shut(c.overdue_reason())
}

/// Closing a circuit for `reason`.
pub open spec fn closing_for(reason: CloseReason) -> spec_fn(CircuitView) -> CircuitView {
    |c: CircuitView| c.shut(reason)
}

/// A ledger that no longer counts the circuit `c`.
pub open spec fn ledger_without(ledger: ResourceLedger, c: CircuitView) -> ResourceLedger {
    if c.pending() {
        ResourceLedger { pending: (ledger.pending - 1) as usize, ..ledger }
    } else if c.forwarding() {
        ResourceLedger { circuits: (ledger.circuits - 1) as usize, ..ledger }
    } else {
        ledger
    }
}

/// A ledger that counts the circuit `c` too.
pub open spec fn ledger_with(ledger: ResourceLedger, c: CircuitView) -> ResourceLedger {
    if c.pending() {
        ResourceLedger { pending: (ledger.pending + 1) as usize, ..ledger }
    } else if c.forwarding() {
        ResourceLedger { circuits: (ledger.circuits + 1) as usize, ..ledger }
    } else {
        ledger
    }
}

/// The circuit `c`, which waits for its target, after the target accepted it at `now`:
/// closed where the target has had `accept_timeout` ticks to answer, else active.
pub open spec fn after_accept(c: CircuitView, accept_timeout: u64, now: u64) -> CircuitView {
    if c.unanswered(accept_timeout, now) {
        c.shut(CloseReason::Timeout)
    } else {
        c.accepted(now)
    }
}

/// The circuit `c` after a chunk of `len` bytes arrived for the direction `dir` at `now`:
/// closed where its time is up, else with the chunk counted.
pub open spec fn after_chunk(c: CircuitView, dir: Direction, len: u64, now: u64) -> CircuitView {
    if !c.carries(dir) {
        c
    } else if c.spent(now) {
        c.shut(CloseReason::DurationQuota)
    } else {
        c.with_chunk(dir, len)
    }
}

/// The condition of being held by `peer`.
pub open spec fn held_by(peer: Seq<u8>) -> spec_fn(ReservationView) -> bool {
    |r: ReservationView| r.peer == peer
}

/// What can happen to the relay engine.
pub enum Event {
    /// `peer` asks for a reservation.
    Reserve { peer: Seq<u8>, now: u64 },
    /// `src` asks for a circuit to `dst`.
    Connect { src: Seq<u8>, dst: Seq<u8>, now: u64 },
    /// The target of the circuit `id` accepts it.
    Accept { id: u64, now: u64 },
    /// The target of the circuit `id` refuses it.
    Refuse { id: u64 },
    /// The circuit `id` is closed for `reason`.
    Close { id: u64, reason: CloseReason },
    /// The writer of the direction `dir` of the circuit `id` closes it.
    HalfClose { id: u64, dir: Direction },
    /// A chunk of `len` bytes arrives for the direction `dir` of the circuit `id`.
    Chunk { id: u64, dir: Direction, len: u64, now: u64 },
    /// The sweep runs.
    Sweep { now: u64 },
    /// `peer` is lost: its connection closed, or it stopped answering probes.
    PeerLost { peer: Seq<u8> },
}

/// Everything that the relay engine holds.
pub struct EngineState {
    pub limits: Limits,
    pub seed: Seq<u8>,
    pub reservations: Seq<ReservationView>,
    pub circuits: Seq<CircuitView>,
    pub ledger: ResourceLedger,
    pub next_circuit: u64,
}

impl EngineState {
    /// The state of a relay that has served nobody yet.
    pub open spec fn initial(seed: Seq<u8>, limits: Limits) -> EngineState {
        EngineState {
            limits,
            seed,
            reservations: Seq::empty(),
            circuits: Seq::empty(),
            ledger: ResourceLedger { reservations: 0, circuits: 0, pending: 0, bytes_relayed: 0 },
            next_circuit: 0,
        }
    }

    // ------------------------------------------------------------------ what holds always

    /// No two reservations belong to one peer.
    pub open spec fn one_reservation_each(self) -> bool {
        forall|i: int, j: int|
            0 <= i < j < self.reservations.len() ==> (#[trigger] self.reservations[i]).peer != (
            #[trigger] self.reservations[j]).peer
    }

    /// No two circuits have one id.
    pub open spec fn one_circuit_each(self) -> bool {
        forall|i: int, j: int|
            0 <= i < j < self.circuits.len() ==> (#[trigger] self.circuits[i]).id != (
            #[trigger] self.circuits[j]).id
    }

    /// What holds of each circuit in the table: its id was handed out, it is not closed,
    /// and it is within its byte quota.
    pub open spec fn sound(self, c: CircuitView) -> bool {
        &&& c.id < self.next_circuit
        &&& !c.closed()
        &&& c.within_quota()
    }

    /// What holds of the relay between any two events.
    pub open spec fn inv(self) -> bool {
        &&& self.one_reservation_each()
        &&& self.ledger.reservations == self.reservations.len()
        &&& self.reservations.len() <= self.limits.max_reservations
        &&& (self.reservations.len() > 0 ==> self.limits.max_reservations_per_peer > 0)
        &&& self.one_circuit_each()
        &&& forall|i: int| 0 <= i < self.circuits.len() ==> self.sound(#[trigger] self.circuits[i])
        &&& self.ledger.pending == tally(self.circuits, waiting())
        &&& self.ledger.circuits == tally(self.circuits, carrying())
        &&& self.ledger.pending + self.ledger.circuits == self.circuits.len()
        &&& self.circuits.len() <= self.limits.max_circuits
        &&& forall|peer: Seq<u8>| #[trigger]
            tally(self.circuits, involving(peer)) <= self.limits.max_circuits_per_peer
    }

    // ------------------------------------------------------------------ questions

    /// Whether `peer` holds a reservation, expired or not.
    pub open spec fn holds(self, peer: Seq<u8>) -> bool {
        exists|i: int| 0 <= i < self.reservations.len() && (#[trigger] self.reservations[i]).peer == peer
    }

    /// Where the reservation of `peer` stands in the table.
    pub open spec fn slot(self, peer: Seq<u8>) -> int {
        choose|i: int| 0 <= i < self.reservations.len() && (#[trigger] self.reservations[i]).peer == peer
    }

    /// The reservation of `peer`.
    pub open spec fn reservation_of(self, peer: Seq<u8>) -> ReservationView {
        self.reservations[self.slot(peer)]
    }

    /// Whether `peer` holds a reservation that has not run out at `now`.
    pub open spec fn reachable(self, peer: Seq<u8>, now: u64) -> bool {
        self.holds(peer) && !self.reservation_of(peer).expired(now)
    }

    /// Whether a circuit with this id is in the table.
    pub open spec fn has_circuit(self, id: u64) -> bool {
        exists|i: int| 0 <= i < self.circuits.len() && (#[trigger] self.circuits[i]).id == id
    }

    /// Where the circuit with this id stands in the table.
    pub open spec fn circuit_slot(self, id: u64) -> int {
        choose|i: int| 0 <= i < self.circuits.len() && (#[trigger] self.circuits[i]).id == id
    }

    /// The circuit with this id.
    pub open spec fn circuit(self, id: u64) -> CircuitView {
        self.circuits[self.circuit_slot(id)]
    }

    /// In how many circuits `peer` takes part.
    pub open spec fn circuits_of(self, peer: Seq<u8>) -> nat {
        tally(self.circuits, involving(peer))
    }

    /// Whether anything in the tables names `peer`.
    pub open spec fn mentions(self, peer: Seq<u8>) -> bool {
        self.holds(peer) || self.circuits_of(peer) > 0
    }

    // ------------------------------------------------------------------ reservations

    /// Whether a request of `peer` for a reservation is granted: it renews one that the
    /// peer holds, or there is room for one more.
    pub open spec fn may_reserve(self, peer: Seq<u8>) -> bool {
        self.holds(peer) || (self.reservations.len() < self.limits.max_reservations
            && self.limits.max_reservations_per_peer > 0)
    }

    /// The reservation that `peer` is granted at `now`.
    pub open spec fn grant(self, peer: Seq<u8>, now: u64) -> ReservationView {
        ReservationView {
            peer,
            created_at: now,
            ttl: self.limits.reservation_ttl,
            voucher: voucher_for(self.seed, peer, now, self.limits.reservation_ttl),
        }
    }

    /// The state after the reservation `r` was entered for its peer: in the place of the
    /// one that the peer held, or as a new one where there is room, or not at all.
    pub open spec fn entered(self, r: ReservationView) -> EngineState {
        if self.holds(r.peer) {
            EngineState { reservations: self.reservations.update(self.slot(r.peer), r), ..self }
        } else if self.may_reserve(r.peer) {
            EngineState {
                reservations: self.reservations.push(r),
                ledger: ResourceLedger {
                    reservations: (self.ledger.reservations + 1) as usize,
                    ..self.ledger
                },
                ..self
            }
        } else {
            self
        }
    }

    /// The state after `peer` asked for a reservation at `now`.
    pub open spec fn reserve(self, peer: Seq<u8>, now: u64) -> EngineState {
        self.entered(self.grant(peer, now))
    }

    // ------------------------------------------------------------------ circuits

    /// Whether there is room for one more circuit between `src` and `dst`: in the table,
    /// in the share of each of the two peers, and among the ids.
    pub open spec fn has_room(self, src: Seq<u8>, dst: Seq<u8>) -> bool {
        &&& self.circuits.len() < self.limits.max_circuits
        &&& self.circuits_of(src) < self.limits.max_circuits_per_peer
        &&& self.circuits_of(dst) < self.limits.max_circuits_per_peer
        &&& self.next_circuit < u64::MAX
    }

    /// The circuit that waits for the answer of `dst` after `src` asked for it at `now`.
    pub open spec fn opened(self, src: Seq<u8>, dst: Seq<u8>, now: u64) -> CircuitView {
        CircuitView {
            id: self.next_circuit,
            src,
            dst,
            opened_at: now,
            state: CircuitState::Pending,
            bytes_src_to_dst: 0,
            bytes_dst_to_src: 0,
            max_duration: self.limits.max_circuit_duration,
            max_bytes: self.limits.max_circuit_bytes,
        }
    }

    /// The state after `src` asked at `now` for a circuit to `dst`.
    pub open spec fn connect(self, src: Seq<u8>, dst: Seq<u8>, now: u64) -> EngineState {
        if self.reachable(dst, now) && self.has_room(src, dst) {
            EngineState {
                circuits: self.circuits.push(self.opened(src, dst, now)),
                ledger: ResourceLedger { pending: (self.ledger.pending + 1) as usize, ..self.ledger },
                next_circuit: (self.next_circuit + 1) as u64,
                ..self
            }
        } else {
            self
        }
    }

    /// The state after the circuit in place `i` became `c`: `c` stands in its place, or,
    /// where `c` is closed, the place is given up; the ledger counts what is there.
    pub open spec fn settled(self, i: int, c: CircuitView) -> EngineState {
        let ledger = ledger_with(ledger_without(self.ledger, self.circuits[i]), c);
        if c.closed() {
            EngineState { circuits: self.circuits.remove(i), ledger, ..self }
        } else {
            EngineState { circuits: self.circuits.update(i, c), ledger, ..self }
        }
    }

    /// The state after the target accepted the circuit `id` at `now`. Only a circuit that
    /// waits for its target can be accepted, and only in time.
    pub open spec fn accept(self, id: u64, now: u64) -> EngineState {
        if self.has_circuit(id) && self.circuit(id).pending() {
            self.settled(
                self.circuit_slot(id),
                after_accept(self.circuit(id), self.limits.accept_timeout, now),
            )
        } else {
            self
        }
    }

    /// The state after the circuit `id` was closed for `reason`.
    pub open spec fn close(self, id: u64, reason: CloseReason) -> EngineState {
        if self.has_circuit(id) {
            self.settled(self.circuit_slot(id), self.circuit(id).shut(reason))
        } else {
            self
        }
    }

    /// The state after the target refused the circuit `id`. Only a circuit that waits for
    /// its target can be refused.
    pub open spec fn refuse(self, id: u64) -> EngineState {
        if self.has_circuit(id) && self.circuit(id).pending() {
            self.close(id, CloseReason::PeerRefused)
        } else {
            self
        }
    }

    /// The state after the writer of the direction `dir` of the circuit `id` closed it.
    pub open spec fn half_close(self, id: u64, dir: Direction) -> EngineState {
        if self.has_circuit(id) {
            self.settled(self.circuit_slot(id), self.circuit(id).half_closed(dir))
        } else {
            self
        }
    }

    /// Whether a chunk for the direction `dir` of the circuit `id` is forwarded at `now`.
    pub open spec fn forwards(self, id: u64, dir: Direction, now: u64) -> bool {
        &&& self.has_circuit(id)
        &&& self.circuit(id).carries(dir)
        &&& !self.circuit(id).spent(now)
    }

    /// The state after a chunk of `len` bytes arrived at `now` for the direction `dir` of
    /// the circuit `id`.
    pub open spec fn forward(self, id: u64, dir: Direction, len: u64, now: u64) -> EngineState {
        if self.has_circuit(id) {
            let after = self.settled(self.circuit_slot(id), after_chunk(self.circuit(id), dir, len, now));
            if self.forwards(id, dir, now) {
                EngineState {
                    ledger: ResourceLedger {
                        bytes_relayed: capped_sum(self.ledger.bytes_relayed, len),
                        ..after.ledger
                    },
                    ..after
                }
            } else {
                after
            }
        } else {
            self
        }
    }

    /// The state after `event`.
    pub open spec fn after(self, event: Event) -> EngineState {
        match event {
            Event::Reserve { peer, now } => self.reserve(peer, now),
            Event::Connect { src, dst, now } => self.connect(src, dst, now),
            Event::Accept { id, now } => self.accept(id, now),
            Event::Refuse { id } => self.refuse(id),
            Event::Close { id, reason } => self.close(id, reason),
            Event::HalfClose { id, dir } => self.half_close(id, dir),
            Event::Chunk { id, dir, len, now } => self.forward(id, dir, len, now),
            Event::Sweep { now } => self.sweep(now),
            Event::PeerLost { peer } => self.without_peer(peer),
        }
    }

    // ------------------------------------------------------------------ sweeps

    /// The ledger that counts what the tables `reservations` and `circuits` hold.
    pub open spec fn recount(self, reservations: Seq<ReservationView>, circuits: Seq<CircuitView>) -> ResourceLedger {
        ResourceLedger {
            reservations: reservations.len() as usize,
            circuits: tally(circuits, carrying()) as usize,
            pending: tally(circuits, waiting()) as usize,
            bytes_relayed: self.ledger.bytes_relayed,
        }
    }

    /// The state after a sweep at `now`: the reservations that have run out are gone, and
    /// so are the circuits that have no time left.
    pub open spec fn sweep(self, now: u64) -> EngineState {
        let reservations = self.reservations.filter(unexpired(now));
        let circuits = self.circuits.filter(in_time(self.limits.accept_timeout, now));
        EngineState { reservations, circuits, ledger: self.recount(reservations, circuits), ..self }
    }

    /// The reservations that a sweep at `now` removes.
    pub open spec fn expired_at(self, now: u64) -> Seq<ReservationView> {
        self.reservations.filter(lapsed(now))
    }

    /// The circuits that a sweep at `now` closes, as they are closed.
    pub open spec fn overdue_at(self, now: u64) -> Seq<CircuitView> {
        self.circuits.filter(out_of_time(self.limits.accept_timeout, now)).map_values(
            closing_overdue(),
        )
    }

    /// The reservations without that of `peer`.
    pub open spec fn reservations_without(self, peer: Seq<u8>) -> Seq<ReservationView> {
        if self.holds(peer) {
            self.reservations.remove(self.slot(peer))
        } else {
            self.reservations
        }
    }

    /// The state after `peer` was lost: its reservation is gone, and so is every circuit
    /// in which it took part.
    pub open spec fn without_peer(self, peer: Seq<u8>) -> EngineState {
        let reservations = self.reservations_without(peer);
        let circuits = self.circuits.filter(apart_from(peer));
        EngineState { reservations, circuits, ledger: self.recount(reservations, circuits), ..self }
    }

    /// The circuits that are closed for `reason` when `peer` is lost, as they are closed.
    pub open spec fn circuits_with(self, peer: Seq<u8>, reason: CloseReason) -> Seq<CircuitView> {
        self.circuits.filter(involving(peer)).map_values(closing_for(reason))
    }
}

} // verus!
