//! The relay's counters.

use vstd::prelude::*;

verus! {

/// What the relay holds at one moment, and what it has forwarded since it started.
#[derive(Clone, Copy, Debug, PartialEq, Eq, Structural)]
pub struct ResourceLedger {
    /// The reservations held.
    pub reservations: usize,
    /// The circuits that forward, in both directions or in one.
    pub circuits: usize,
    /// The circuits that wait for their target's answer.
    pub pending: usize,
    /// The bytes forwarded over all circuits, held at the largest value of the counter.
    pub bytes_relayed: u64,
}

} // verus!
