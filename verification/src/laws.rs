//! What holds of the relay whatever happens to it.

use vstd::prelude::*;
use crate::circuit::{CircuitState, CircuitView, CloseReason, Direction};
use crate::limits::Limits;
use crate::reservation::ReservationView;
use crate::state::{
    after_accept, after_chunk, apart_from, carrying, held_by, in_time, involving, unexpired, waiting, EngineState,
    Event,
};
use crate::tally::{
    lemma_tally_bound, lemma_tally_push, lemma_tally_remove, lemma_tally_update, lemma_tally_zero,
    tally,
};

verus! {

/// Among reservations of which no two belong to one peer, at most one belongs to `peer`.
proof fn lemma_at_most_one(rs: Seq<ReservationView>, peer: Seq<u8>)
    requires
        forall|i: int, j: int| 0 <= i < j < rs.len() ==> (#[trigger] rs[i]).peer != (#[trigger] rs[j]).peer,
    ensures
        tally(rs, held_by(peer)) <= 1,
    decreases rs.len(),
{
    if rs.len() > 0 {
        let front = rs.drop_last();
        assert forall|i: int, j: int| 0 <= i < j < front.len() implies (#[trigger] front[i]).peer != (
        #[trigger] front[j]).peer by {
            assert(front[i] == rs[i]);
            assert(front[j] == rs[j]);
        }
        lemma_at_most_one(front, peer);
        if rs.last().peer == peer {
            assert forall|i: int| 0 <= i < front.len() implies !held_by(peer)(#[trigger] front[i]) by {
                assert(front[i] == rs[i]);
                assert(rs[rs.len() - 1] == rs.last());
            }
            lemma_tally_zero(front, held_by(peer));
        }
    }
}

/// At any time a peer holds at most one reservation, and never more than the quota of a
/// peer allows.
pub proof fn law_one_reservation_per_peer(s: EngineState, peer: Seq<u8>)
    requires
        s.inv(),
    ensures
        tally(s.reservations, held_by(peer)) <= 1,
        tally(s.reservations, held_by(peer)) <= s.limits.max_reservations_per_peer,
{
    lemma_at_most_one(s.reservations, peer);
    if tally(s.reservations, held_by(peer)) > 0 {
        lemma_tally_zero(s.reservations, held_by(peer));
    }
}

/// A request of a peer that holds a reservation is granted, and the reservation that it
/// is granted takes the place of the one it held: the relay holds as many as before.
pub proof fn law_renewal_replaces(s: EngineState, peer: Seq<u8>, now: u64)
    requires
        s.inv(),
        s.holds(peer),
    ensures
        s.may_reserve(peer),
        s.reserve(peer, now).reservations.len() == s.reservations.len(),
        s.reserve(peer, now).ledger == s.ledger,
        s.reserve(peer, now).holds(peer),
        s.reserve(peer, now).reservation_of(peer) == s.grant(peer, now),
        s.reserve(peer, now).one_reservation_each(),
{
    let t = s.reserve(peer, now);
    let i = s.slot(peer);
    assert(t.reservations[i] == s.grant(peer, now));
    assert forall|a: int, b: int| 0 <= a < b < t.reservations.len() implies (
    #[trigger] t.reservations[a]).peer != (#[trigger] t.reservations[b]).peer by {
        assert(t.reservations[a].peer == s.reservations[a].peer);
        assert(t.reservations[b].peer == s.reservations[b].peer);
    }
    let j = t.slot(peer);
    assert(t.reservations[j].peer == peer);
    assert(j == i);
}

/// A request for a circuit to a peer that holds no reservation, or one that has run out,
/// changes nothing: no circuit comes of it.
pub proof fn law_connect_needs_reservation(s: EngineState, src: Seq<u8>, dst: Seq<u8>, now: u64)
    requires
        !s.reachable(dst, now),
    ensures
        s.connect(src, dst, now) == s,
{
}

/// At any time the counts of the ledger are within the quotas, and so is the number of
/// circuits in which one peer takes part.
pub proof fn law_counts_within_quotas(s: EngineState, peer: Seq<u8>)
    requires
        s.inv(),
    ensures
        s.ledger.reservations == s.reservations.len(),
        s.ledger.reservations <= s.limits.max_reservations,
        s.ledger.circuits + s.ledger.pending == s.circuits.len(),
        s.ledger.circuits + s.ledger.pending <= s.limits.max_circuits,
        s.circuits_of(peer) <= s.limits.max_circuits_per_peer,
{
}

/// A request that would take the relay over a quota changes nothing.
pub proof fn law_over_quota_is_rejected(s: EngineState, src: Seq<u8>, dst: Seq<u8>, now: u64)
    ensures
        !s.may_reserve(src) ==> s.reserve(src, now) == s,
        !s.has_room(src, dst) ==> s.connect(src, dst, now) == s,
{
}

/// A circuit that waits for its target stops waiting in one way only: the target accepts
/// it, and it is active then. Whatever else happens, it waits on or is gone.
pub proof fn law_only_accept_activates(s: EngineState, event: Event, i: int, j: int)
    requires
        s.inv(),
        0 <= i < s.circuits.len(),
        s.circuits[i].pending(),
        0 <= j < s.after(event).circuits.len(),
        s.after(event).circuits[j].id == s.circuits[i].id,
        !s.after(event).circuits[j].pending(),
    ensures
        event matches Event::Accept { id, now } && id == s.circuits[i].id,
        s.after(event).circuits[j].state == CircuitState::Active,
{
    let t = s.after(event);
    let c = t.circuits[j];
    assert(s.sound(s.circuits[i]));
    match event {
        Event::Reserve { peer, now } => {
            assert(t.circuits == s.circuits);
            assert(s.circuits[j].id == s.circuits[i].id);
        },
        Event::Connect { src, dst, now } => {
            if j < s.circuits.len() {
                assert(t.circuits[j] == s.circuits[j]);
            }
        },
        Event::Accept { id, now } => {
            if s.has_circuit(id) && s.circuit(id).pending() {
                lemma_settled_entry(
                    s,
                    s.circuit_slot(id),
                    after_accept(s.circuit(id), s.limits.accept_timeout, now),
                    j,
                );
            }
        },
        Event::Refuse { id } => {
            if s.has_circuit(id) {
                lemma_settled_entry(s, s.circuit_slot(id), s.circuit(id).shut(CloseReason::PeerRefused), j);
            }
        },
        Event::Close { id, reason } => {
            if s.has_circuit(id) {
                lemma_settled_entry(s, s.circuit_slot(id), s.circuit(id).shut(reason), j);
            }
        },
        Event::HalfClose { id, dir } => {
            if s.has_circuit(id) {
                lemma_settled_entry(s, s.circuit_slot(id), s.circuit(id).half_closed(dir), j);
            }
        },
        Event::Chunk { id, dir, len, now } => {
            if s.has_circuit(id) {
                lemma_settled_entry(s, s.circuit_slot(id), after_chunk(s.circuit(id), dir, len, now), j);
            }
        },
        Event::Sweep { now } => {
            s.circuits.lemma_filter_contains_rev(in_time(s.limits.accept_timeout, now), c);
            assert(t.circuits.contains(c));
            let k = choose|k: int| 0 <= k < s.circuits.len() && s.circuits[k] == c;
            assert(s.circuits[k].id == s.circuits[i].id);
        },
        Event::PeerLost { peer } => {
            s.circuits.lemma_filter_contains_rev(apart_from(peer), c);
            assert(t.circuits.contains(c));
            let k = choose|k: int| 0 <= k < s.circuits.len() && s.circuits[k] == c;
            assert(s.circuits[k].id == s.circuits[i].id);
        },
    }
}

/// What stands in place `j` after the circuit in place `i` became `c`: `c` itself where
/// it took that place, else a circuit that stood in the table before.
proof fn lemma_settled_entry(s: EngineState, i: int, c: CircuitView, j: int)
    requires
        0 <= i < s.circuits.len(),
        0 <= j < s.settled(i, c).circuits.len(),
    ensures
        (!c.closed() && j == i && s.settled(i, c).circuits[j] == c) || (exists|k: int|
            0 <= k < s.circuits.len() && k != i && s.circuits[k] == s.settled(i, c).circuits[j]),
{
    let t = s.settled(i, c);
    if c.closed() {
        let k = if j < i { j } else { j + 1 };
        assert(s.circuits[k] == t.circuits[j]);
    } else if j != i {
        assert(s.circuits[j] == t.circuits[j]);
    }
}

/// A refused circuit leaves the table, and the ledger's count of circuits stays as it was.
pub proof fn law_refusal_counts_nothing(s: EngineState, id: u64)
    requires
        s.inv(),
        s.has_circuit(id),
        s.circuit(id).pending(),
    ensures
        s.refuse(id).ledger.circuits == s.ledger.circuits,
        s.refuse(id).ledger.pending == s.ledger.pending - 1,
        s.refuse(id).circuits.len() == s.circuits.len() - 1,
        !s.refuse(id).has_circuit(id),
{
    let t = s.refuse(id);
    let i = s.circuit_slot(id);
    lemma_tally_remove(s.circuits, i, waiting());
    assert(t.circuits == s.circuits.remove(i));
    if t.has_circuit(id) {
        let j = t.circuit_slot(id);
        let k = if j < i { j } else { j + 1 };
        assert(t.circuits[j] == s.circuits[k]);
        assert(s.circuits[i].id == id);
        assert(s.circuits[k].id == id);
        assert(false);
    }
}

/// The other direction of `dir`.
pub open spec fn reverse(dir: Direction) -> Direction {
    match dir {
        Direction::SrcToDst => Direction::DstToSrc,
        Direction::DstToSrc => Direction::SrcToDst,
    }
}

/// A chunk for a direction that forwards closes the circuit exactly where the circuit's
/// time is up or the counter of that direction reaches the byte quota with the chunk. The
/// counter never passes the quota by more than the chunk that reached it, a circuit that
/// stays open is within its quota, and nothing is counted once the time is up.
pub proof fn law_quota_breach_closes(c: CircuitView, dir: Direction, len: u64, now: u64)
    requires
        c.within_quota(),
        c.carries(dir),
    ensures
        after_chunk(c, dir, len, now).closed() <==> (c.spent(now) || c.bytes(dir) + len >= c.max_bytes),
        after_chunk(c, dir, len, now).bytes(dir) <= c.max_bytes + len,
        after_chunk(c, dir, len, now).bytes(reverse(dir)) == c.bytes(reverse(dir)),
        !after_chunk(c, dir, len, now).closed() ==> after_chunk(c, dir, len, now).within_quota()
            && after_chunk(c, dir, len, now).bytes(dir) == c.bytes(dir) + len,
        c.spent(now) ==> after_chunk(c, dir, len, now).bytes(dir) == c.bytes(dir),
{
}

/// A circuit that is closed by a chunk leaves the table with that chunk.
pub proof fn law_closed_circuit_leaves(s: EngineState, id: u64, dir: Direction, len: u64, now: u64)
    requires
        s.inv(),
        s.has_circuit(id),
        after_chunk(s.circuit(id), dir, len, now).closed(),
    ensures
        !s.forward(id, dir, len, now).has_circuit(id),
{
    let t = s.forward(id, dir, len, now);
    let i = s.circuit_slot(id);
    assert(t.circuits == s.circuits.remove(i));
    if t.has_circuit(id) {
        let j = t.circuit_slot(id);
        let k = if j < i { j } else { j + 1 };
        assert(t.circuits[j] == s.circuits[k]);
        assert(s.circuits[i].id == id);
        assert(s.circuits[k].id == id);
        assert(false);
    }
}

/// After a sweep no reservation in the table has run out, and no circuit in the table is
/// out of time.
pub proof fn law_sweep_leaves_nothing_overdue(s: EngineState, now: u64, i: int)
    requires
        0 <= i,
    ensures
        i < s.sweep(now).reservations.len() ==> !s.sweep(now).reservations[i].expired(now),
        i < s.sweep(now).circuits.len() ==> !s.sweep(now).circuits[i].overdue(
            s.limits.accept_timeout,
            now,
        ),
{
    if i < s.sweep(now).reservations.len() {
        s.reservations.lemma_filter_pred(unexpired(now), i);
    }
    if i < s.sweep(now).circuits.len() {
        s.circuits.lemma_filter_pred(in_time(s.limits.accept_timeout, now), i);
    }
}

/// Once a peer is lost, nothing in the tables names it: it holds no reservation and
/// takes part in no circuit.
pub proof fn law_lost_peer_leaves_nothing(s: EngineState, peer: Seq<u8>)
    requires
        s.inv(),
    ensures
        !s.without_peer(peer).holds(peer),
        s.without_peer(peer).circuits_of(peer) == 0,
        !s.without_peer(peer).mentions(peer),
{
    let t = s.without_peer(peer);
    if t.holds(peer) {
        let j = t.slot(peer);
        assert(t.reservations[j].peer == peer);
        assert(s.holds(peer)) by {
            if !s.holds(peer) {
                assert(t.reservations == s.reservations);
                assert(s.reservations[j].peer == peer);
            }
        }
        let i = s.slot(peer);
        let k = if j < i { j } else { j + 1 };
        assert(t.reservations[j] == s.reservations[k]);
        assert(s.reservations[i].peer == peer);
        assert(false);
    }
    assert forall|j: int| 0 <= j < t.circuits.len() implies !involving(peer)(#[trigger] t.circuits[j]) by {
        s.circuits.lemma_filter_pred(apart_from(peer), j);
    }
    lemma_tally_zero(t.circuits, involving(peer));
}

/// What `filter` keeps of a sequence whose items differ in their keys differs in its keys.
proof fn lemma_filter_keeps_keys_apart<T, K>(s: Seq<T>, key: spec_fn(T) -> K, keep: spec_fn(T) -> bool)
    requires
        forall|i: int, j: int| 0 <= i < j < s.len() ==> key(#[trigger] s[i]) != key(#[trigger] s[j]),
    ensures
        forall|i: int, j: int|
            0 <= i < j < s.filter(keep).len() ==> key(#[trigger] s.filter(keep)[i]) != key(
                #[trigger] s.filter(keep)[j],
            ),
    decreases s.len(),
{
    reveal(Seq::filter);
    if s.len() > 0 {
        let front = s.drop_last();
        let kept = front.filter(keep);
        assert forall|i: int, j: int| 0 <= i < j < front.len() implies key(#[trigger] front[i]) != key(
            #[trigger] front[j],
        ) by {
            assert(front[i] == s[i]);
            assert(front[j] == s[j]);
        }
        lemma_filter_keeps_keys_apart(front, key, keep);
        if keep(s.last()) {
            let all = s.filter(keep);
            assert(all == kept.push(s.last()));
            assert forall|i: int, j: int| 0 <= i < j < all.len() implies key(#[trigger] all[i]) != key(
                #[trigger] all[j],
            ) by {
                assert(all[i] == kept[i]);
                if j < kept.len() {
                    assert(all[j] == kept[j]);
                } else {
                    assert(kept.contains(kept[i]));
                    front.lemma_filter_contains_rev(keep, kept[i]);
                    let k = choose|k: int| 0 <= k < front.len() && front[k] == kept[i];
                    assert(s[k] == front[k]);
                    assert(s[s.len() - 1] == s.last());
                }
            }
        }
    }
}

/// What `filter` keeps holds no more items that meet a condition than the whole.
proof fn lemma_filter_tallies_less<T>(s: Seq<T>, keep: spec_fn(T) -> bool, p: spec_fn(T) -> bool)
    ensures
        tally(s.filter(keep), p) <= tally(s, p),
    decreases s.len(),
{
    reveal(Seq::filter);
    if s.len() > 0 {
        lemma_filter_tallies_less(s.drop_last(), keep, p);
        if keep(s.last()) {
            lemma_tally_push(s.drop_last().filter(keep), s.last(), p);
        }
    }
}

/// Every item of what `filter` keeps is an item of the whole.
proof fn lemma_filter_item<T>(s: Seq<T>, keep: spec_fn(T) -> bool, j: int) -> (k: int)
    requires
        0 <= j < s.filter(keep).len(),
    ensures
        0 <= k < s.len(),
        s[k] == s.filter(keep)[j],
{
    let kept = s.filter(keep);
    assert(kept.contains(kept[j]));
    s.lemma_filter_contains_rev(keep, kept[j]);
    choose|k: int| 0 <= k < s.len() && s[k] == kept[j]
}

/// Circuits of which none is closed either wait or forward.
proof fn lemma_open_circuits_counted(cs: Seq<CircuitView>)
    requires
        forall|i: int| 0 <= i < cs.len() ==> !(#[trigger] cs[i]).closed(),
    ensures
        tally(cs, waiting()) + tally(cs, carrying()) == cs.len(),
    decreases cs.len(),
{
    if cs.len() > 0 {
        let front = cs.drop_last();
        assert forall|i: int| 0 <= i < front.len() implies !(#[trigger] front[i]).closed() by {
            assert(front[i] == cs[i]);
        }
        lemma_open_circuits_counted(front);
        assert(!cs[cs.len() - 1].closed());
    }
}

/// The invariant holds of tables that were thinned out: of reservations and circuits that
/// are among those of a state of which it holds, in their order, with the ledger counted
/// anew.
proof fn lemma_thinned_inv(s: EngineState, reservations: Seq<ReservationView>, keep: spec_fn(CircuitView) -> bool)
    requires
        s.inv(),
        reservations.len() <= s.reservations.len(),
        forall|i: int, j: int|
            0 <= i < j < reservations.len() ==> (#[trigger] reservations[i]).peer != (
            #[trigger] reservations[j]).peer,
    ensures
        (EngineState {
            reservations,
            circuits: s.circuits.filter(keep),
            ledger: s.recount(reservations, s.circuits.filter(keep)),
            ..s
        }).inv(),
{
    let circuits = s.circuits.filter(keep);
    let t = EngineState { reservations, circuits, ledger: s.recount(reservations, circuits), ..s };
    s.circuits.lemma_filter_len(keep);
    lemma_tally_bound(circuits, waiting());
    lemma_tally_bound(circuits, carrying());
    assert forall|i: int| 0 <= i < circuits.len() implies t.sound(#[trigger] circuits[i]) by {
        let k = lemma_filter_item(s.circuits, keep, i);
        assert(s.sound(s.circuits[k]));
    }
    lemma_open_circuits_counted(circuits);
    let id_of = |c: CircuitView| c.id;
    assert forall|i: int, j: int| 0 <= i < j < s.circuits.len() implies id_of(#[trigger] s.circuits[i])
        != id_of(#[trigger] s.circuits[j]) by {
        assert(s.circuits[i].id != s.circuits[j].id);
    }
    lemma_filter_keeps_keys_apart(s.circuits, id_of, keep);
    assert forall|i: int, j: int| 0 <= i < j < circuits.len() implies (#[trigger] circuits[i]).id != (
    #[trigger] circuits[j]).id by {
        assert(id_of(circuits[i]) != id_of(circuits[j]));
    }
    assert forall|peer: Seq<u8>| #[trigger]
        tally(circuits, involving(peer)) <= t.limits.max_circuits_per_peer by {
        lemma_filter_tallies_less(s.circuits, keep, involving(peer));
        assert(tally(s.circuits, involving(peer)) <= s.limits.max_circuits_per_peer);
    }
}

/// The invariant holds after the circuit in place `i` became a circuit between the same
/// peers under the same id that is closed or within its quota.
pub proof fn lemma_settled_inv(s: EngineState, i: int, c: CircuitView)
    requires
        s.inv(),
        0 <= i < s.circuits.len(),
        c.id == s.circuits[i].id,
        c.src == s.circuits[i].src,
        c.dst == s.circuits[i].dst,
        c.closed() || c.within_quota(),
    ensures
        s.settled(i, c).inv(),
{
    let t = s.settled(i, c);
    let was = s.circuits[i];
    assert(s.sound(was));
    lemma_tally_remove(s.circuits, i, waiting());
    lemma_tally_remove(s.circuits, i, carrying());
    if c.closed() {
        assert forall|a: int| 0 <= a < t.circuits.len() implies t.sound(#[trigger] t.circuits[a]) by {
            let a0 = if a < i { a } else { a + 1 };
            assert(t.circuits[a] == s.circuits[a0]);
            assert(s.sound(s.circuits[a0]));
        }
        assert forall|a: int, b: int| 0 <= a < b < t.circuits.len() implies (#[trigger] t.circuits[a]).id
            != (#[trigger] t.circuits[b]).id by {
            let a0 = if a < i { a } else { a + 1 };
            let b0 = if b < i { b } else { b + 1 };
            assert(t.circuits[a] == s.circuits[a0]);
            assert(t.circuits[b] == s.circuits[b0]);
        }
        assert forall|peer: Seq<u8>| #[trigger]
            tally(t.circuits, involving(peer)) <= t.limits.max_circuits_per_peer by {
            lemma_tally_remove(s.circuits, i, involving(peer));
            assert(tally(s.circuits, involving(peer)) <= s.limits.max_circuits_per_peer);
        }
    } else {
        lemma_tally_update(s.circuits, i, c, waiting());
        lemma_tally_update(s.circuits, i, c, carrying());
        assert forall|a: int| 0 <= a < t.circuits.len() implies t.sound(#[trigger] t.circuits[a]) by {
            if a != i {
                assert(t.circuits[a] == s.circuits[a]);
                assert(s.sound(s.circuits[a]));
            }
        }
        assert forall|a: int, b: int| 0 <= a < b < t.circuits.len() implies (#[trigger] t.circuits[a]).id
            != (#[trigger] t.circuits[b]).id by {
            assert(t.circuits[a].id == s.circuits[a].id);
            assert(t.circuits[b].id == s.circuits[b].id);
        }
        assert forall|peer: Seq<u8>| #[trigger]
            tally(t.circuits, involving(peer)) <= t.limits.max_circuits_per_peer by {
            lemma_tally_update(s.circuits, i, c, involving(peer));
            assert(involving(peer)(c) == involving(peer)(was));
            assert(tally(s.circuits, involving(peer)) <= s.limits.max_circuits_per_peer);
        }
    }
}

/// The invariant holds after a reservation was entered.
pub proof fn lemma_entered_inv(s: EngineState, r: ReservationView)
    requires
        s.inv(),
    ensures
        s.entered(r).inv(),
{
    let t = s.entered(r);
    if s.holds(r.peer) {
        assert forall|a: int, b: int| 0 <= a < b < t.reservations.len() implies (
        #[trigger] t.reservations[a]).peer != (#[trigger] t.reservations[b]).peer by {
            assert(t.reservations[a].peer == s.reservations[a].peer);
            assert(t.reservations[b].peer == s.reservations[b].peer);
        }
    } else if s.may_reserve(r.peer) {
        assert forall|a: int, b: int| 0 <= a < b < t.reservations.len() implies (
        #[trigger] t.reservations[a]).peer != (#[trigger] t.reservations[b]).peer by {
            assert(t.reservations[a] == s.reservations[a]);
            if b < s.reservations.len() {
                assert(t.reservations[b] == s.reservations[b]);
            }
        }
    }
}

/// The invariant holds after a request for a circuit.
pub proof fn lemma_connect_inv(s: EngineState, src: Seq<u8>, dst: Seq<u8>, now: u64)
    requires
        s.inv(),
    ensures
        s.connect(src, dst, now).inv(),
{
    let t = s.connect(src, dst, now);
    if s.reachable(dst, now) && s.has_room(src, dst) {
        let c = s.opened(src, dst, now);
        lemma_tally_push(s.circuits, c, waiting());
        lemma_tally_push(s.circuits, c, carrying());
        assert forall|a: int| 0 <= a < t.circuits.len() implies t.sound(#[trigger] t.circuits[a]) by {
            if a < s.circuits.len() {
                assert(t.circuits[a] == s.circuits[a]);
                assert(s.sound(s.circuits[a]));
            }
        }
        assert forall|a: int, b: int| 0 <= a < b < t.circuits.len() implies (#[trigger] t.circuits[a]).id
            != (#[trigger] t.circuits[b]).id by {
            assert(t.circuits[a] == s.circuits[a]);
            assert(s.sound(s.circuits[a]));
            if b < s.circuits.len() {
                assert(t.circuits[b] == s.circuits[b]);
            }
        }
        assert forall|peer: Seq<u8>| #[trigger]
            tally(t.circuits, involving(peer)) <= t.limits.max_circuits_per_peer by {
            lemma_tally_push(s.circuits, c, involving(peer));
            assert(tally(s.circuits, involving(peer)) <= s.limits.max_circuits_per_peer);
        }
    }
}

/// The invariant holds of a relay that has served nobody yet.
pub proof fn law_invariant_holds_at_first(seed: Seq<u8>, limits: Limits)
    ensures
        EngineState::initial(seed, limits).inv(),
{
}

/// Whatever happens to a relay of which the invariant holds, the invariant holds
/// afterwards: at any time no peer holds two reservations, no two circuits share an id,
/// every circuit in the table is open and within its byte quota, and the ledger counts
/// what the tables hold, within the quotas.
pub proof fn law_invariant_is_kept(s: EngineState, event: Event)
    requires
        s.inv(),
    ensures
        s.after(event).inv(),
{
    match event {
        Event::Reserve { peer, now } => {
            lemma_entered_inv(s, s.grant(peer, now));
        },
        Event::Connect { src, dst, now } => {
            lemma_connect_inv(s, src, dst, now);
        },
        Event::Accept { id, now } => {
            if s.has_circuit(id) && s.circuit(id).pending() {
                assert(s.sound(s.circuit(id)));
                lemma_settled_inv(
                    s,
                    s.circuit_slot(id),
                    after_accept(s.circuit(id), s.limits.accept_timeout, now),
                );
            }
        },
        Event::Refuse { id } => {
            if s.has_circuit(id) {
                lemma_settled_inv(s, s.circuit_slot(id), s.circuit(id).shut(CloseReason::PeerRefused));
            }
        },
        Event::Close { id, reason } => {
            if s.has_circuit(id) {
                lemma_settled_inv(s, s.circuit_slot(id), s.circuit(id).shut(reason));
            }
        },
        Event::HalfClose { id, dir } => {
            if s.has_circuit(id) {
                assert(s.sound(s.circuit(id)));
                lemma_settled_inv(s, s.circuit_slot(id), s.circuit(id).half_closed(dir));
            }
        },
        Event::Chunk { id, dir, len, now } => {
            if s.has_circuit(id) {
                assert(s.sound(s.circuit(id)));
                lemma_settled_inv(s, s.circuit_slot(id), after_chunk(s.circuit(id), dir, len, now));
            }
        },
        Event::Sweep { now } => {
            let reservations = s.reservations.filter(unexpired(now));
            s.reservations.lemma_filter_len(unexpired(now));
            let peer_of = |r: ReservationView| r.peer;
            assert forall|i: int, j: int| 0 <= i < j < s.reservations.len() implies peer_of(
                #[trigger] s.reservations[i],
            ) != peer_of(#[trigger] s.reservations[j]) by {
                assert(s.reservations[i].peer != s.reservations[j].peer);
            }
            lemma_filter_keeps_keys_apart(s.reservations, peer_of, unexpired(now));
            assert forall|i: int, j: int| 0 <= i < j < reservations.len() implies (
            #[trigger] reservations[i]).peer != (#[trigger] reservations[j]).peer by {
                assert(peer_of(reservations[i]) != peer_of(reservations[j]));
            }
            lemma_thinned_inv(s, reservations, in_time(s.limits.accept_timeout, now));
        },
        Event::PeerLost { peer } => {
            let reservations = s.reservations_without(peer);
            if s.holds(peer) {
                let i = s.slot(peer);
                assert forall|a: int, b: int| 0 <= a < b < reservations.len() implies (
                #[trigger] reservations[a]).peer != (#[trigger] reservations[b]).peer by {
                    let a0 = if a < i { a } else { a + 1 };
                    let b0 = if b < i { b } else { b + 1 };
                    assert(reservations[a] == s.reservations[a0]);
                    assert(reservations[b] == s.reservations[b0]);
                }
            }
            lemma_thinned_inv(s, reservations, apart_from(peer));
        },
    }
}

} // verus!
