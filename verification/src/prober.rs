//! The liveness prober of one connection.

use vstd::prelude::*;
use crate::clock::{is_span_over, span_over};

verus! {

/// Where the prober of a connection stands.
#[derive(Clone, Copy, Debug, PartialEq, Eq, Structural)]
pub enum ProbeState {
    /// No probe is on its way; the last one was answered, or the connection began, at
    /// `since`.
    Idle { since: u64 },
    /// A probe with the payload `nonce` was sent at `sent_at` and is not answered yet.
    Awaiting { sent_at: u64, nonce: u64 },
    /// A probe was not answered in time: the connection counts as dead.
    Failed,
}

/// What the owner of the connection is to do after a tick.
#[derive(Clone, Copy, Debug, PartialEq, Eq, Structural)]
pub enum ProbeAction {
    /// Nothing.
    Wait,
    /// Send a probe with this payload.
    Send(u64),
    /// Treat the peer as dead.
    TimedOut,
}

/// The liveness prober of one connection: it asks for a probe every `interval` ticks and
/// gives the peer `timeout` ticks to echo it.
#[derive(Clone, Copy, Debug, PartialEq, Eq, Structural)]
pub struct Prober {
    pub interval: u64,
    pub timeout: u64,
    pub state: ProbeState,
}

impl Prober {
    /// The prober and what is to be done, after a tick at `now`; `nonce` is the payload
    /// for the probe, should one be due.
    pub open spec fn ticked(self, now: u64, nonce: u64) -> (Prober, ProbeAction) {
        match self.state {
            ProbeState::Idle { since } => if span_over(since, self.interval, now) {
                (
                    Prober { state: ProbeState::Awaiting { sent_at: now, nonce }, ..self },
                    ProbeAction::Send(nonce),
                )
            } else {
                (self, ProbeAction::Wait)
            },
            ProbeState::Awaiting { sent_at, nonce: _ } => if span_over(sent_at, self.timeout, now) {
                (Prober { state: ProbeState::Failed, ..self }, ProbeAction::TimedOut)
            } else {
                (self, ProbeAction::Wait)
            },
            ProbeState::Failed => (self, ProbeAction::TimedOut),
        }
    }

    /// Whether a reply with the payload `nonce` that arrives at `now` answers the probe
    /// that is on its way: the payload is the one that was sent, and the time is not up.
    pub open spec fn answers(self, nonce: u64, now: u64) -> bool {
        match self.state {
            ProbeState::Awaiting { sent_at, nonce: sent } => sent == nonce && !span_over(
                sent_at,
                self.timeout,
                now,
            ),
            _ => false,
        }
    }

    /// The ticks between the probe that is on its way and `now`.
    pub open spec fn round_trip(self, now: u64) -> u64 {
        match self.state {
            ProbeState::Awaiting { sent_at, nonce: _ } => if now >= sent_at {
                (now - sent_at) as u64
            } else {
                0
            },
            _ => 0,
        }
    }

    /// The prober after a reply with the payload `nonce` arrived at `now`.
    pub open spec fn replied(self, nonce: u64, now: u64) -> Prober {
        if self.answers(nonce, now) {
            Prober { state: ProbeState::Idle { since: now }, ..self }
        } else {
            self
        }
    }

    /// The prober of a connection that began at `now`.
    pub fn new(interval: u64, timeout: u64, now: u64) -> (prober: Prober)
        ensures
            prober == (Prober { interval, timeout, state: ProbeState::Idle { since: now } }),
    {
        Prober { interval, timeout, state: ProbeState::Idle { since: now } }
    }

    /// Lets the prober know that it is `now`, and says what is to be done.
    pub fn tick(&mut self, now: u64, nonce: u64) -> (action: ProbeAction)
        ensures
            (*final(self), action) == old(self).ticked(now, nonce),
    {
        match self.state {
            ProbeState::Idle { since } => {
                if is_span_over(since, self.interval, now) {
                    self.state = ProbeState::Awaiting { sent_at: now, nonce };
                    ProbeAction::Send(nonce)
                } else {
                    ProbeAction::Wait
                }
            },
            ProbeState::Awaiting { sent_at, nonce: _ } => {
                if is_span_over(sent_at, self.timeout, now) {
                    self.state = ProbeState::Failed;
                    ProbeAction::TimedOut
                } else {
                    ProbeAction::Wait
                }
            },
            ProbeState::Failed => ProbeAction::TimedOut,
        }
    }

    /// Takes note of a reply with the payload `nonce` that arrived at `now`. Where it
    /// answers the probe that is on its way, the round-trip time is returned and the
    /// prober is idle again; any other reply is passed over.
    pub fn on_reply(&mut self, nonce: u64, now: u64) -> (rtt: Option<u64>)
        ensures
            *final(self) == old(self).replied(nonce, now),
            match rtt {
                Some(t) => old(self).answers(nonce, now) && t == old(self).round_trip(now),
                None => !old(self).answers(nonce, now),
            },
    {
        match self.state {
            ProbeState::Awaiting { sent_at, nonce: sent } => {
                if sent == nonce && !is_span_over(sent_at, self.timeout, now) {
                    self.state = ProbeState::Idle { since: now };
                    Some(if now >= sent_at { now - sent_at } else { 0 })
                } else {
                    None
                }
            },
            _ => None,
        }
    }

    /// Whether the connection counts as dead.
    pub fn has_failed(&self) -> (failed: bool)
        ensures
            failed == (self.state == ProbeState::Failed),
    {
        match self.state {
            ProbeState::Failed => true,
            _ => false,
        }
    }
}

} // verus!
