//! Circuits: one relayed session between two peers, and the states it passes through.

use vstd::prelude::*;
use crate::clock::{add_capped, capped_sum, is_span_over, rate, rate_per_second, span_over};
use crate::error::RelayError;
use crate::identity::PeerIdentity;

verus! {

/// One of the two directions in which a circuit forwards.
#[derive(Clone, Copy, Debug, PartialEq, Eq, Structural)]
pub enum Direction {
    /// From the peer that asked for the circuit to the peer it asked for.
    SrcToDst,
    /// The other way.
    DstToSrc,
}

/// Why a circuit was closed.
#[derive(Clone, Copy, Debug, PartialEq, Eq, Structural)]
pub enum CloseReason {
    /// Both directions were closed by the peers, or one of them closed its stream.
    Finished,
    /// One direction reached the byte quota.
    ByteQuota,
    /// The circuit reached its largest duration.
    DurationQuota,
    /// The target refused the circuit.
    PeerRefused,
    /// The target did not answer in time, or a peer of the circuit stopped answering probes.
    Timeout,
    /// The connection of a peer of the circuit was lost.
    TransportLost,
}

impl CloseReason {
    /// The failure that the reason stands for: none where the peers finished or a quota
    /// of the circuit was reached.
    pub open spec fn failure(self) -> Option<RelayError> {
        match self {
            CloseReason::PeerRefused => Some(RelayError::PeerRefused),
            CloseReason::Timeout => Some(RelayError::Timeout),
            CloseReason::TransportLost => Some(RelayError::TransportLost),
            _ => None,
        }
    }

    /// The failure to report to the peers of a circuit that was closed for this reason.
    pub fn error(self) -> (error: Option<RelayError>)
        ensures
            error == self.failure(),
    {
        match self {
            CloseReason::PeerRefused => Some(RelayError::PeerRefused),
            CloseReason::Timeout => Some(RelayError::Timeout),
            CloseReason::TransportLost => Some(RelayError::TransportLost),
            CloseReason::Finished => None,
            CloseReason::ByteQuota => None,
            CloseReason::DurationQuota => None,
        }
    }
}

/// Where a circuit stands.
#[derive(Clone, Copy, Debug, PartialEq, Eq, Structural)]
pub enum CircuitState {
    /// The target was asked and has not answered yet.
    Pending,
    /// Both directions forward.
    Active,
    /// The named direction was closed by the peer that writes it; the other still forwards.
    HalfClosed(Direction),
    /// Nothing is forwarded any more.
    Closed(CloseReason),
}

/// What a circuit is.
pub struct CircuitView {
    pub id: u64,
    pub src: Seq<u8>,
    pub dst: Seq<u8>,
    pub opened_at: u64,
    pub state: CircuitState,
    pub bytes_src_to_dst: u64,
    pub bytes_dst_to_src: u64,
    pub max_duration: u64,
    pub max_bytes: u64,
}

impl CircuitView {
    /// Whether `peer` is one of the two ends.
    pub open spec fn involves(self, peer: Seq<u8>) -> bool {
        self.src == peer || self.dst == peer
    }

    /// Whether the target has not answered yet.
    pub open spec fn pending(self) -> bool {
        self.state == CircuitState::Pending
    }

    /// Whether at least one direction forwards.
    pub open spec fn forwarding(self) -> bool {
        self.state == CircuitState::Active || self.state is HalfClosed
    }

    /// Whether nothing is forwarded any more.
    pub open spec fn closed(self) -> bool {
        self.state is Closed
    }

    /// Whether the direction `dir` forwards.
    pub open spec fn carries(self, dir: Direction) -> bool {
        match self.state {
            CircuitState::Active => true,
            CircuitState::HalfClosed(shut) => shut != dir,
            _ => false,
        }
    }

    /// The bytes forwarded so far in the direction `dir`.
    pub open spec fn bytes(self, dir: Direction) -> u64 {
        match dir {
            Direction::SrcToDst => self.bytes_src_to_dst,
            Direction::DstToSrc => self.bytes_dst_to_src,
        }
    }

    /// The milliseconds for which the circuit has stood at `now` since it was opened or
    /// accepted.
    pub open spec fn age(self, now: u64) -> u64 {
        if now >= self.opened_at {
            (now - self.opened_at) as u64
        } else {
            0
        }
    }

    /// The bytes per second that the direction `dir` has forwarded up to `now`.
    pub open spec fn byte_rate(self, dir: Direction, now: u64) -> Option<u64> {
        rate(self.bytes(dir), self.age(now))
    }

    /// Whether neither direction has reached the byte quota through a chunk.
    pub open spec fn within_quota(self) -> bool {
        &&& (self.bytes_src_to_dst == 0 || self.bytes_src_to_dst < self.max_bytes)
        &&& (self.bytes_dst_to_src == 0 || self.bytes_dst_to_src < self.max_bytes)
    }

    /// Whether the circuit has forwarded for its largest duration at `now`.
    pub open spec fn spent(self, now: u64) -> bool {
        self.forwarding() && span_over(self.opened_at, self.max_duration, now)
    }

    /// Whether the target has had `accept_timeout` ticks at `now` and has not answered.
    pub open spec fn unanswered(self, accept_timeout: u64, now: u64) -> bool {
        self.pending() && span_over(self.opened_at, accept_timeout, now)
    }

    /// Whether the circuit has run out of time at `now`, waiting or forwarding.
    pub open spec fn overdue(self, accept_timeout: u64, now: u64) -> bool {
        self.spent(now) || self.unanswered(accept_timeout, now)
    }

    /// The reason for which an overdue circuit is closed.
    pub open spec fn overdue_reason(self) -> CloseReason {
        if self.pending() {
            CloseReason::Timeout
        } else {
            CloseReason::DurationQuota
        }
    }

    /// The circuit, closed for `reason`. A closed circuit keeps its reason.
    pub open spec fn shut(self, reason: CloseReason) -> CircuitView {
        if self.closed() {
            self
        } else {
            CircuitView { state: CircuitState::Closed(reason), ..self }
        }
    }

    /// The circuit after the target accepted it at `now`: a pending circuit becomes
    /// active and its time starts; any other circuit stays as it is.
    pub open spec fn accepted(self, now: u64) -> CircuitView {
        if self.pending() {
            CircuitView { state: CircuitState::Active, opened_at: now, ..self }
        } else {
            self
        }
    }

    /// The circuit after `len` bytes were forwarded in the direction `dir`: the counter of
    /// that direction grows by `len`, and the circuit is closed once the counter has
    /// reached the quota. Where `dir` does not forward, nothing changes.
    pub open spec fn with_chunk(self, dir: Direction, len: u64) -> CircuitView {
        if !self.carries(dir) {
            self
        } else {
            let total = capped_sum(self.bytes(dir), len);
            let state = if total >= self.max_bytes {
                CircuitState::Closed(CloseReason::ByteQuota)
            } else {
                self.state
            };
            match dir {
                Direction::SrcToDst => CircuitView { bytes_src_to_dst: total, state, ..self },
                Direction::DstToSrc => CircuitView { bytes_dst_to_src: total, state, ..self },
            }
        }
    }

    /// The circuit after the writer of the direction `dir` closed it: an active circuit
    /// goes on in the other direction alone, a circuit whose other direction was closed
    /// before is finished, any other circuit stays as it is.
    pub open spec fn half_closed(self, dir: Direction) -> CircuitView {
        match self.state {
            CircuitState::Active => CircuitView { state: CircuitState::HalfClosed(dir), ..self },
            CircuitState::HalfClosed(shut) => if shut == dir {
                self
            } else {
                CircuitView { state: CircuitState::Closed(CloseReason::Finished), ..self }
            },
            _ => self,
        }
    }
}

/// One relayed session between the peer that asked for it, `src`, and the peer it asked
/// for, `dst`.
#[derive(Debug)]
pub struct Circuit {
    pub id: u64,
    pub src: PeerIdentity,
    pub dst: PeerIdentity,
    pub opened_at: u64,
    pub state: CircuitState,
    pub bytes_src_to_dst: u64,
    pub bytes_dst_to_src: u64,
    pub max_duration: u64,
    pub max_bytes: u64,
}

impl View for Circuit {
    type V = CircuitView;

    open spec fn view(&self) -> CircuitView {
        CircuitView {
            id: self.id,
            src: self.src@,
            dst: self.dst@,
            opened_at: self.opened_at,
            state: self.state,
            bytes_src_to_dst: self.bytes_src_to_dst,
            bytes_dst_to_src: self.bytes_dst_to_src,
            max_duration: self.max_duration,
            max_bytes: self.max_bytes,
        }
    }
}

impl Clone for Circuit {
    fn clone(&self) -> (circuit: Circuit)
        ensures
            circuit@ == self@,
    {
        Circuit {
            id: self.id,
            src: self.src.clone(),
            dst: self.dst.clone(),
            opened_at: self.opened_at,
            state: self.state,
            bytes_src_to_dst: self.bytes_src_to_dst,
            bytes_dst_to_src: self.bytes_dst_to_src,
            max_duration: self.max_duration,
            max_bytes: self.max_bytes,
        }
    }
}

impl Circuit {
    /// Whether `peer` is one of the two ends.
    pub fn involves(&self, peer: &PeerIdentity) -> (yes: bool)
        ensures
            yes == self@.involves(peer@),
    {
        self.src.same_as(peer) || self.dst.same_as(peer)
    }

    /// Whether the target has not answered yet.
    pub fn is_pending(&self) -> (yes: bool)
        ensures
            yes == self@.pending(),
    {
        match self.state {
            CircuitState::Pending => true,
            _ => false,
        }
    }

    /// Whether at least one direction forwards.
    pub fn is_forwarding(&self) -> (yes: bool)
        ensures
            yes == self@.forwarding(),
    {
        match self.state {
            CircuitState::Active => true,
            CircuitState::HalfClosed(_) => true,
            _ => false,
        }
    }

    /// Whether nothing is forwarded any more.
    pub fn is_closed(&self) -> (yes: bool)
        ensures
            yes == self@.closed(),
    {
        match self.state {
            CircuitState::Closed(_) => true,
            _ => false,
        }
    }

    /// Whether the direction `dir` forwards.
    pub fn carries(&self, dir: Direction) -> (yes: bool)
        ensures
            yes == self@.carries(dir),
    {
        match self.state {
            CircuitState::Active => true,
            CircuitState::HalfClosed(shut) => shut != dir,
            _ => false,
        }
    }

    /// The bytes forwarded so far in the direction `dir`.
    pub fn bytes(&self, dir: Direction) -> (count: u64)
        ensures
            count == self@.bytes(dir),
    {
        match dir {
            Direction::SrcToDst => self.bytes_src_to_dst,
            Direction::DstToSrc => self.bytes_dst_to_src,
        }
    }

    /// The bytes per second that the direction `dir` has forwarded up to `now`.
    pub fn byte_rate(&self, dir: Direction, now: u64) -> (per_second: Option<u64>)
        ensures
            per_second == self@.byte_rate(dir, now),
    {
        let age = if now >= self.opened_at { now - self.opened_at } else { 0 };
        rate_per_second(self.bytes(dir), age)
    }

    /// Whether the circuit has forwarded for its largest duration at `now`.
    pub fn is_spent(&self, now: u64) -> (yes: bool)
        ensures
            yes == self@.spent(now),
    {
        self.is_forwarding() && is_span_over(self.opened_at, self.max_duration, now)
    }

    /// Whether the circuit has run out of time at `now`, waiting or forwarding.
    pub fn is_overdue(&self, accept_timeout: u64, now: u64) -> (yes: bool)
        ensures
            yes == self@.overdue(accept_timeout, now),
    {
        self.is_spent(now) || (self.is_pending() && is_span_over(self.opened_at, accept_timeout, now))
    }

    /// The reason for which the circuit is closed when it is overdue.
    pub fn overdue_reason(&self) -> (reason: CloseReason)
        ensures
            reason == self@.overdue_reason(),
    {
        if self.is_pending() {
            CloseReason::Timeout
        } else {
            CloseReason::DurationQuota
        }
    }

    /// Closes the circuit for `reason`, unless it is closed already.
    pub fn shut(&mut self, reason: CloseReason)
        ensures
            final(self)@ == old(self)@.shut(reason),
    {
        if !self.is_closed() {
            self.state = CircuitState::Closed(reason);
        }
    }

    /// Takes note that the target accepted the circuit at `now`.
    pub fn accept(&mut self, now: u64)
        ensures
            final(self)@ == old(self)@.accepted(now),
    {
        if self.is_pending() {
            self.state = CircuitState::Active;
            self.opened_at = now;
        }
    }

    /// Counts a chunk of `len` bytes forwarded in the direction `dir`.
    pub fn record_chunk(&mut self, dir: Direction, len: u64)
        ensures
            final(self)@ == old(self)@.with_chunk(dir, len),
    {
        if self.carries(dir) {
            let total = add_capped(self.bytes(dir), len);
            match dir {
                Direction::SrcToDst => {
                    self.bytes_src_to_dst = total;
                },
                Direction::DstToSrc => {
                    self.bytes_dst_to_src = total;
                },
            }
            if total >= self.max_bytes {
                self.state = CircuitState::Closed(CloseReason::ByteQuota);
            }
        }
    }

    /// Takes note that the writer of the direction `dir` closed it.
    pub fn half_close(&mut self, dir: Direction)
        ensures
            final(self)@ == old(self)@.half_closed(dir),
    {
        match self.state {
            CircuitState::Active => {
                self.state = CircuitState::HalfClosed(dir);
            },
            CircuitState::HalfClosed(shut) => {
                if shut != dir {
                    self.state = CircuitState::Closed(CloseReason::Finished);
                }
            },
            _ => {},
        }
    }
}

} // verus!
