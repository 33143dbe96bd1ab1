//! The ways in which a request or a circuit fails.

use vstd::prelude::*;

verus! {

/// Why the relay turns a request down, or gives up what it held for a peer.
#[derive(Clone, Copy, Debug, PartialEq, Eq, Structural)]
pub enum RelayError {
    /// A quota is used up.
    ResourceExhausted,
    /// The target of a circuit holds no reservation that is still good.
    NoReservation,
    /// The target of a circuit refused it.
    PeerRefused,
    /// A peer did not answer in time.
    Timeout,
    /// The connection to a peer was lost.
    TransportLost,
}

} // verus!
