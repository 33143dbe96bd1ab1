use rs_relay::circuit::{CircuitState, CloseReason, Direction};
use rs_relay::discovery::Announcement;
use rs_relay::dispatcher::{Dispatcher, Inbound, Outbound};
use rs_relay::error::RelayError;
use rs_relay::identity::PeerIdentity;
use rs_relay::limits::Limits;

fn peer(tag: u8) -> PeerIdentity {
    PeerIdentity::from_bytes(vec![0x00, 0x01, tag])
}

fn node() -> Dispatcher {
    let limits = Limits {
        max_reservations: 2,
        max_reservations_per_peer: 1,
        reservation_ttl: 1_000,
        max_circuits: 2,
        max_circuits_per_peer: 2,
        max_circuit_duration: 500,
        max_circuit_bytes: 100,
        accept_timeout: 50,
    };
    Dispatcher::new([2u8; 32], limits, "/relay/1".to_string())
}

fn reserve(node: &mut Dispatcher, tag: u8, now: u64) {
    match node.dispatch(Inbound::Reserve { peer: peer(tag) }, now) {
        Outbound::Reserved { .. } => {}
        other => panic!("no reservation: {:?}", other),
    }
}

fn connect(node: &mut Dispatcher, from: u8, to: u8, now: u64) -> u64 {
    match node.dispatch(Inbound::Connect { initiator: peer(from), target: peer(to) }, now) {
        Outbound::Stop { request } => request.circuit.id,
        other => panic!("no circuit: {:?}", other),
    }
}

#[test]
fn a_reservation_is_granted_or_rejected() {
    let mut node = node();
    match node.dispatch(Inbound::Reserve { peer: peer(1) }, 5) {
        Outbound::Reserved { reservation } => {
            assert!(reservation.peer.same_as(&peer(1)));
            assert_eq!(reservation.created_at, 5);
            assert_eq!(reservation.ttl, 1_000);
        }
        other => panic!("no reservation: {:?}", other),
    }
    reserve(&mut node, 2, 5);
    match node.dispatch(Inbound::Reserve { peer: peer(3) }, 5) {
        Outbound::Rejected { reason } => assert_eq!(reason, RelayError::ResourceExhausted),
        other => panic!("not rejected: {:?}", other),
    }
    assert_eq!(node.engine().ledger().reservations, 2);
}

#[test]
fn a_connect_is_rejected_or_asks_the_target() {
    let mut node = node();
    match node.dispatch(Inbound::Connect { initiator: peer(1), target: peer(2) }, 1) {
        Outbound::Rejected { reason } => assert_eq!(reason, RelayError::NoReservation),
        other => panic!("not rejected: {:?}", other),
    }
    reserve(&mut node, 2, 1);
    match node.dispatch(Inbound::Connect { initiator: peer(1), target: peer(2) }, 2) {
        Outbound::Stop { request } => {
            assert_eq!(request.circuit.state, CircuitState::Pending);
            assert!(request.circuit.src.same_as(&peer(1)));
            assert!(request.circuit.dst.same_as(&peer(2)));
            assert_eq!(request.circuit.opened_at, 2);
            assert_eq!(request.circuit.max_bytes, 100);
            assert_eq!(request.circuit.max_duration, 500);
            assert!(!request.voucher.signature.is_empty());
        }
        other => panic!("no circuit: {:?}", other),
    }
    connect(&mut node, 3, 2, 2);
    match node.dispatch(Inbound::Connect { initiator: peer(4), target: peer(2) }, 2) {
        Outbound::Rejected { reason } => assert_eq!(reason, RelayError::ResourceExhausted),
        other => panic!("not rejected: {:?}", other),
    }
}

#[test]
fn the_answer_of_the_target() {
    let mut node = node();
    reserve(&mut node, 2, 0);
    let accepted = connect(&mut node, 1, 2, 1);
    let refused = connect(&mut node, 3, 2, 1);
    match node.dispatch(Inbound::StopAccepted { circuit: accepted }, 4) {
        Outbound::Connected { circuit } => {
            assert_eq!(circuit.id, accepted);
            assert_eq!(circuit.state, CircuitState::Active);
            assert_eq!(circuit.opened_at, 4);
        }
        other => panic!("not connected: {:?}", other),
    }
    match node.dispatch(Inbound::StopRefused { circuit: refused }, 4) {
        Outbound::CircuitClosed { circuit } => {
            assert_eq!(circuit.id, refused);
            assert_eq!(circuit.state, CircuitState::Closed(CloseReason::PeerRefused));
        }
        other => panic!("not refused: {:?}", other),
    }
    assert_eq!(node.engine().ledger().circuits, 1);
    assert_eq!(node.engine().ledger().pending, 0);
    assert!(matches!(node.dispatch(Inbound::StopAccepted { circuit: accepted }, 5), Outbound::Nothing));
    assert!(matches!(node.dispatch(Inbound::StopRefused { circuit: accepted }, 5), Outbound::Nothing));
    assert!(matches!(node.dispatch(Inbound::StopAccepted { circuit: 99 }, 5), Outbound::Nothing));
}

#[test]
fn a_late_answer_of_the_target() {
    let mut node = node();
    reserve(&mut node, 2, 0);
    let id = connect(&mut node, 1, 2, 1);
    match node.dispatch(Inbound::StopAccepted { circuit: id }, 51) {
        Outbound::CircuitClosed { circuit } => {
            assert_eq!(circuit.id, id);
            assert_eq!(circuit.state, CircuitState::Closed(CloseReason::Timeout));
            assert_eq!(CloseReason::Timeout.error(), Some(RelayError::Timeout));
        }
        other => panic!("not closed: {:?}", other),
    }
    assert_eq!(node.engine().ledger().pending, 0);
    assert_eq!(node.engine().ledger().circuits, 0);
}

#[test]
fn chunks_are_forwarded_until_the_quota() {
    let mut node = node();
    reserve(&mut node, 2, 0);
    let id = connect(&mut node, 1, 2, 1);
    let chunk = |len| Inbound::Chunk { circuit: id, direction: Direction::SrcToDst, len };
    assert!(matches!(node.dispatch(chunk(10), 2), Outbound::Nothing));
    node.dispatch(Inbound::StopAccepted { circuit: id }, 2);
    match node.dispatch(chunk(60), 3) {
        Outbound::Forward { circuit } => assert_eq!(circuit.bytes_src_to_dst, 60),
        other => panic!("not forwarded: {:?}", other),
    }
    match node.dispatch(chunk(60), 4) {
        Outbound::CircuitClosed { circuit } => {
            assert_eq!(circuit.bytes_src_to_dst, 120);
            assert_eq!(circuit.state, CircuitState::Closed(CloseReason::ByteQuota));
        }
        other => panic!("not closed: {:?}", other),
    }
    assert!(matches!(node.dispatch(chunk(1), 5), Outbound::Nothing));
    assert_eq!(node.engine().ledger().circuits, 0);
}

#[test]
fn streams_that_close() {
    let mut node = node();
    reserve(&mut node, 2, 0);
    let first = connect(&mut node, 1, 2, 1);
    let second = connect(&mut node, 3, 2, 1);
    let half = |circuit, direction| Inbound::HalfClosed { circuit, direction };
    assert!(matches!(node.dispatch(half(first, Direction::SrcToDst), 2), Outbound::Nothing));
    node.dispatch(Inbound::StopAccepted { circuit: first }, 2);
    node.dispatch(Inbound::StopAccepted { circuit: second }, 2);
    match node.dispatch(half(first, Direction::DstToSrc), 3) {
        Outbound::HalfClosed { circuit } => {
            assert_eq!(circuit.state, CircuitState::HalfClosed(Direction::DstToSrc))
        }
        other => panic!("not half closed: {:?}", other),
    }
    let late = Inbound::Chunk { circuit: first, direction: Direction::DstToSrc, len: 1 };
    assert!(matches!(node.dispatch(late, 3), Outbound::Nothing));
    match node.dispatch(half(first, Direction::SrcToDst), 4) {
        Outbound::CircuitClosed { circuit } => {
            assert_eq!(circuit.state, CircuitState::Closed(CloseReason::Finished))
        }
        other => panic!("not closed: {:?}", other),
    }
    match node.dispatch(Inbound::StreamClosed { circuit: second }, 4) {
        Outbound::CircuitClosed { circuit } => {
            assert_eq!(circuit.id, second);
            assert_eq!(circuit.state, CircuitState::Closed(CloseReason::Finished));
        }
        other => panic!("not closed: {:?}", other),
    }
    assert!(matches!(node.dispatch(Inbound::StreamClosed { circuit: second }, 4), Outbound::Nothing));
    assert_eq!(node.engine().ledger().circuits, 0);
}

#[test]
fn peers_that_are_lost() {
    let mut node = node();
    reserve(&mut node, 1, 0);
    reserve(&mut node, 2, 0);
    let id = connect(&mut node, 1, 2, 1);
    match node.dispatch(Inbound::Disconnected { peer: peer(1) }, 2) {
        Outbound::PeerRemoved { teardown } => {
            assert!(teardown.reservation.expect("peer 1 held one").peer.same_as(&peer(1)));
            assert_eq!(teardown.closed.len(), 1);
            assert_eq!(teardown.closed[0].id, id);
            assert_eq!(teardown.closed[0].state, CircuitState::Closed(CloseReason::TransportLost));
        }
        other => panic!("not removed: {:?}", other),
    }
    let id = connect(&mut node, 3, 2, 3);
    match node.dispatch(Inbound::ProbeTimedOut { peer: peer(2) }, 4) {
        Outbound::PeerRemoved { teardown } => {
            assert!(teardown.reservation.is_some());
            assert_eq!(teardown.closed.len(), 1);
            assert_eq!(teardown.closed[0].id, id);
            assert_eq!(teardown.closed[0].state, CircuitState::Closed(CloseReason::Timeout));
        }
        other => panic!("not removed: {:?}", other),
    }
    let ledger = node.engine().ledger();
    assert_eq!((ledger.reservations, ledger.circuits, ledger.pending), (0, 0, 0));
}

#[test]
fn the_tick_sweeps() {
    let mut node = node();
    reserve(&mut node, 2, 0);
    let id = connect(&mut node, 1, 2, 10);
    match node.dispatch(Inbound::Tick, 59) {
        Outbound::Swept { report } => {
            assert!(report.expired.is_empty());
            assert!(report.closed.is_empty());
        }
        other => panic!("not swept: {:?}", other),
    }
    match node.dispatch(Inbound::Tick, 1_000) {
        Outbound::Swept { report } => {
            assert_eq!(report.expired.len(), 1);
            assert_eq!(report.closed.len(), 1);
            assert_eq!(report.closed[0].id, id);
            assert_eq!(report.closed[0].state, CircuitState::Closed(CloseReason::Timeout));
        }
        other => panic!("not swept: {:?}", other),
    }
}

#[test]
fn addresses_are_made_known_once() {
    let mut node = node();
    let listen = vec![0x04, 0, 0, 0, 0, 0x06, 0x0f, 0xa1, 0xdd, 0x03];
    let seen = vec![0x04, 192, 0, 2, 1, 0x06, 0x0f, 0xa1, 0xdd, 0x03];
    match node.dispatch(Inbound::Listening { address: listen.clone() }, 0) {
        Outbound::NewListenAddress { address } => assert_eq!(address.to_bytes(), listen),
        other => panic!("not new: {:?}", other),
    }
    assert!(matches!(node.dispatch(Inbound::Listening { address: listen.clone() }, 1), Outbound::Nothing));
    assert!(matches!(node.dispatch(Inbound::Listening { address: vec![0x04] }, 1), Outbound::Nothing));
    let said = |version: &str, observed: &Vec<u8>| Inbound::Announced {
        announcement: Announcement {
            protocol_version: version.to_string(),
            listen_addrs: vec![],
            observed: observed.clone(),
        },
    };
    assert!(matches!(node.dispatch(said("/other/1", &seen), 2), Outbound::Nothing));
    match node.dispatch(said("/relay/1", &seen), 2) {
        Outbound::NewExternalAddress { address } => assert_eq!(address.to_bytes(), seen),
        other => panic!("not new: {:?}", other),
    }
    assert!(matches!(node.dispatch(said("/relay/1", &seen), 3), Outbound::Nothing));
    assert!(matches!(node.dispatch(said("/relay/1", &listen), 3), Outbound::Nothing));
    assert_eq!(node.agent().addresses().len(), 2);
    assert_eq!(node.engine().ledger().reservations, 0);
}
