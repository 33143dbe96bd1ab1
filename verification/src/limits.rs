//! Resource limits of a relay.

use vstd::prelude::*;

verus! {

/// The quotas and time bounds that a relay enforces. Times are in milliseconds.
#[derive(Clone, Copy, Debug, PartialEq, Eq, Structural)]
pub struct Limits {
    /// How many reservations the relay holds at most.
    pub max_reservations: usize,
    /// How many reservations one peer holds at most.
    pub max_reservations_per_peer: usize,
    /// How long a reservation lasts from the moment it is granted or renewed.
    pub reservation_ttl: u64,
    /// How many circuits, pending ones included, the relay holds at most.
    pub max_circuits: usize,
    /// In how many circuits, pending ones included, one peer takes part at most.
    pub max_circuits_per_peer: usize,
    /// How long a circuit forwards from the moment it was accepted.
    pub max_circuit_duration: u64,
    /// How many bytes a circuit forwards in one direction.
    pub max_circuit_bytes: u64,
    /// How long the relay waits for the target of a circuit to accept or refuse.
    pub accept_timeout: u64,
}

impl Limits {
    /// The limits of a relay that nobody configured.
    pub open spec fn standard() -> Limits {
        Limits {
            max_reservations: 128,
            max_reservations_per_peer: 4,
            reservation_ttl: 3_600_000,
            max_circuits: 16,
            max_circuits_per_peer: 4,
            max_circuit_duration: 120_000,
            max_circuit_bytes: 131_072,
            accept_timeout: 10_000,
        }
    }
}

impl Default for Limits {
    fn default() -> (limits: Limits)
        ensures
            limits == Limits::standard(),
    {
        Limits {
            max_reservations: 128,
            max_reservations_per_peer: 4,
            reservation_ttl: 3_600_000,
            max_circuits: 16,
            max_circuits_per_peer: 4,
            max_circuit_duration: 120_000,
            max_circuit_bytes: 131_072,
            accept_timeout: 10_000,
        }
    }
}

} // verus!
