use rs_relay::circuit::{CircuitState, CloseReason, Direction};
use rs_relay::engine::RelayEngine;
use rs_relay::error::RelayError;
use rs_relay::identity::PeerIdentity;
use rs_relay::limits::Limits;

fn peer(tag: u8) -> PeerIdentity {
    PeerIdentity::from_bytes(vec![0x00, 0x04, b'p', b'e', b'e', tag])
}

fn limits() -> Limits {
    Limits {
        max_reservations: 10,
        max_reservations_per_peer: 1,
        reservation_ttl: 60_000,
        max_circuits: 10,
        max_circuits_per_peer: 10,
        max_circuit_duration: 120_000,
        max_circuit_bytes: 1_000_000,
        accept_timeout: 10_000,
    }
}

#[test]
fn reserve_connect_forward_disconnect() {
    let a = peer(b'a');
    let b = peer(b'b');
    let mut engine = RelayEngine::new([7u8; 32], limits());

    let reservation = engine.handle_reserve(&a, 1_000).expect("ten slots are free");
    assert!(reservation.peer.same_as(&a));
    assert_eq!(reservation.created_at, 1_000);
    assert_eq!(reservation.ttl, 60_000);
    assert!(!reservation.voucher.signature.is_empty());
    assert_eq!(engine.ledger().reservations, 1);

    let stop = engine.handle_connect(&b, &a, 2_000).expect("a holds a reservation");
    let id = stop.circuit.id;
    assert_eq!(stop.circuit.state, CircuitState::Pending);
    assert!(stop.circuit.src.same_as(&b));
    assert!(stop.circuit.dst.same_as(&a));
    assert_eq!(stop.voucher.signature, reservation.voucher.signature);
    assert_eq!(engine.circuit(id).expect("the circuit is in the table").state, CircuitState::Pending);
    assert_eq!(engine.ledger().pending, 1);
    assert_eq!(engine.ledger().circuits, 0);

    let active = engine.accept_circuit(id, 2_500).expect("the circuit waited for a");
    assert_eq!(active.state, CircuitState::Active);
    assert_eq!(active.opened_at, 2_500);
    assert_eq!(engine.ledger().pending, 0);
    assert_eq!(engine.ledger().circuits, 1);

    for step in 0..5u64 {
        let now = 3_000 + step;
        let one = engine.forward(id, Direction::SrcToDst, 1_024, now).expect("the circuit is known");
        assert_eq!(one.state, CircuitState::Active);
        let other = engine.forward(id, Direction::DstToSrc, 1_024, now).expect("the circuit is known");
        assert_eq!(other.state, CircuitState::Active);
    }
    let circuit = engine.circuit(id).expect("the circuit is in the table");
    assert_eq!(circuit.bytes_src_to_dst, 5_120);
    assert_eq!(circuit.bytes_dst_to_src, 5_120);
    assert_eq!(engine.ledger().bytes_relayed, 10_240);

    let teardown = engine.on_disconnect(&b);
    assert!(teardown.reservation.is_none());
    assert_eq!(teardown.closed.len(), 1);
    assert_eq!(teardown.closed[0].id, id);
    assert_eq!(teardown.closed[0].state, CircuitState::Closed(CloseReason::TransportLost));
    assert_eq!(teardown.closed[0].bytes_src_to_dst, 5_120);
    assert_eq!(teardown.closed[0].bytes_dst_to_src, 5_120);
    assert!(engine.circuit(id).is_none());
    assert_eq!(engine.ledger().circuits, 0);
    assert_eq!(engine.ledger().pending, 0);
    assert_eq!(engine.ledger().reservations, 1);
    let kept = engine.reservation(&a).expect("the reservation of a is untouched");
    assert_eq!(kept.created_at, 1_000);
    assert!(engine.is_reachable(&a, 4_000));
}

#[test]
fn two_connects_for_one_slot() {
    let c = peer(b'c');
    let d = peer(b'd');
    let e = peer(b'e');
    let mut engine = RelayEngine::new([7u8; 32], Limits { max_circuits: 1, ..limits() });
    engine.handle_reserve(&e, 0).expect("there is room");

    let first = engine.handle_connect(&c, &e, 10);
    assert_eq!(engine.ledger().pending + engine.ledger().circuits, 1);
    let second = engine.handle_connect(&d, &e, 10);
    assert_eq!(engine.ledger().pending + engine.ledger().circuits, 1);

    let stop = first.expect("the first request is admitted");
    assert!(stop.circuit.src.same_as(&c));
    assert_eq!(second.err(), Some(RelayError::ResourceExhausted));

    let active = engine.accept_circuit(stop.circuit.id, 11).expect("the circuit waited");
    assert_eq!(active.state, CircuitState::Active);
    assert_eq!(engine.ledger().circuits, 1);
    assert_eq!(engine.ledger().pending, 0);
    assert_eq!(engine.circuits_of(&d), 0);

    let again = engine.handle_connect(&d, &e, 12);
    assert_eq!(again.err(), Some(RelayError::ResourceExhausted));
    assert_eq!(engine.ledger().circuits, 1);
}

#[test]
fn silent_peer_loses_its_reservation() {
    let interval: u64 = 15_000;
    let ttl = 2 * interval;
    let f = peer(b'f');
    let g = peer(b'g');
    let mut engine = RelayEngine::new([7u8; 32], Limits { reservation_ttl: ttl, ..limits() });
    engine.handle_reserve(&f, 100).expect("there is room");

    let early = engine.expire_sweep(100 + ttl - 1);
    assert!(early.expired.is_empty());
    assert!(engine.is_reachable(&f, 100 + ttl - 1));

    let late = engine.expire_sweep(100 + 2 * ttl + 1);
    assert_eq!(late.expired.len(), 1);
    assert!(late.expired[0].peer.same_as(&f));
    assert!(late.closed.is_empty());
    assert_eq!(engine.ledger().reservations, 0);
    assert!(engine.reservation(&f).is_none());

    let connect = engine.handle_connect(&g, &f, 100 + 2 * ttl + 2);
    assert_eq!(connect.err(), Some(RelayError::NoReservation));
    assert_eq!(engine.ledger().pending, 0);
}
