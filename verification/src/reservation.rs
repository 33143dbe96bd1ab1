//! Reservations and the vouchers that prove them.

use vstd::prelude::*;
use vstd::bytes::{spec_u64_to_le_bytes, u64_to_le_bytes};
use crate::clock::{is_span_over, span_over, span_left, ticks_left};
use crate::identity::{ed25519_signature, signature_bytes, PeerIdentity};

verus! {

/// The bytes that a voucher signs: when the reservation was granted and how long it lasts,
/// each as eight little-endian bytes, then the identifier of the peer that holds it.
pub open spec fn voucher_payload(peer: Seq<u8>, created_at: u64, ttl: u64) -> Seq<u8> {
    spec_u64_to_le_bytes(created_at) + spec_u64_to_le_bytes(ttl) + peer
}

/// What a voucher is: the signed bytes and the relay's signature over them.
pub struct VoucherView {
    pub payload: Seq<u8>,
    pub signature: Seq<u8>,
}

/// The voucher that the relay with key seed `seed` issues for a reservation.
pub open spec fn voucher_for(seed: Seq<u8>, peer: Seq<u8>, created_at: u64, ttl: u64) -> VoucherView {
    let payload = voucher_payload(peer, created_at, ttl);
    VoucherView { payload, signature: ed25519_signature(seed, payload) }
}

/// A signed proof of a reservation, handed to the peer that reserved.
#[derive(Debug)]
pub struct Voucher {
    pub payload: Vec<u8>,
    pub signature: Vec<u8>,
}

impl View for Voucher {
    type V = VoucherView;

    open spec fn view(&self) -> VoucherView {
        VoucherView { payload: self.payload@, signature: self.signature@ }
    }
}

impl Clone for Voucher {
    fn clone(&self) -> (voucher: Voucher)
        ensures
            voucher@ == self@,
    {
        Voucher { payload: self.payload.clone(), signature: self.signature.clone() }
    }
}

impl Voucher {
    /// Writes the bytes that a voucher signs.
    pub fn payload_of(peer: &PeerIdentity, created_at: u64, ttl: u64) -> (payload: Vec<u8>)
        ensures
            payload@ == voucher_payload(peer@, created_at, ttl),
    {
        let mut payload = u64_to_le_bytes(created_at);
        let mut span = u64_to_le_bytes(ttl);
        let mut id = peer.to_bytes();
        payload.append(&mut span);
        payload.append(&mut id);
        payload
    }

    /// Puts a payload and the signature over it together.
    pub fn seal(payload: Vec<u8>, signature: Vec<u8>) -> (voucher: Voucher)
        ensures
            voucher@ == (VoucherView { payload: payload@, signature: signature@ }),
    {
        Voucher { payload, signature }
    }

    /// Issues the voucher of a reservation, signed with the key made from `seed`.
    pub fn issue(seed: &[u8; 32], peer: &PeerIdentity, created_at: u64, ttl: u64) -> (voucher: Voucher)
        ensures
            voucher@ == voucher_for(seed@, peer@, created_at, ttl),
    {
        let payload = Voucher::payload_of(peer, created_at, ttl);
        let signature = signature_bytes(seed, &payload);
        Voucher::seal(payload, signature)
    }
}

/// What a reservation is.
pub struct ReservationView {
    pub peer: Seq<u8>,
    pub created_at: u64,
    pub ttl: u64,
    pub voucher: VoucherView,
}

impl ReservationView {
    /// The first tick at which the reservation no longer holds.
    pub open spec fn expires_at(self) -> int {
        self.created_at + self.ttl
    }

    /// Whether the reservation has run out at `now`.
    pub open spec fn expired(self, now: u64) -> bool {
        span_over(self.created_at, self.ttl, now)
    }
}

/// The relay's promise to forward circuits to one peer for a time.
#[derive(Debug)]
pub struct Reservation {
    pub peer: PeerIdentity,
    pub created_at: u64,
    pub ttl: u64,
    pub voucher: Voucher,
}

impl View for Reservation {
    type V = ReservationView;

    open spec fn view(&self) -> ReservationView {
        ReservationView {
            peer: self.peer@,
            created_at: self.created_at,
            ttl: self.ttl,
            voucher: self.voucher@,
        }
    }
}

impl Clone for Reservation {
    fn clone(&self) -> (reservation: Reservation)
        ensures
            reservation@ == self@,
    {
        Reservation {
            peer: self.peer.clone(),
            created_at: self.created_at,
            ttl: self.ttl,
            voucher: self.voucher.clone(),
        }
    }
}

impl Reservation {
    /// Whether the reservation has run out at `now`.
    pub fn is_expired(&self, now: u64) -> (expired: bool)
        ensures
            expired == self@.expired(now),
    {
        is_span_over(self.created_at, self.ttl, now)
    }

    /// The first tick at which the reservation no longer holds, where the clock can show it.
    pub fn expires_at(&self) -> (tick: Option<u64>)
        ensures
            match tick {
                Some(t) => t == self@.expires_at(),
                None => self@.expires_at() > u64::MAX,
            },
    {
        self.created_at.checked_add(self.ttl)
    }

    /// The ticks for which the reservation still holds at `now`.
    pub fn remaining(&self, now: u64) -> (left: u64)
        ensures
            left == span_left(self.created_at, self.ttl, now),
    {
        ticks_left(self.created_at, self.ttl, now)
    }
}

} // verus!
