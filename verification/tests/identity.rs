use rs_relay::engine::RelayEngine;
use rs_relay::identity::{bytes_equal, PeerIdentity};
use rs_relay::limits::Limits;
use rs_relay::reservation::Voucher;

#[test]
fn bytes_are_compared_item_by_item() {
    assert!(bytes_equal(&vec![], &vec![]));
    assert!(bytes_equal(&vec![1, 2, 3], &vec![1, 2, 3]));
    assert!(!bytes_equal(&vec![1, 2, 3], &vec![1, 2, 4]));
    assert!(!bytes_equal(&vec![1, 2, 3], &vec![1, 2]));
    assert!(!bytes_equal(&vec![], &vec![0]));
}

#[test]
fn an_identity_keeps_its_bytes() {
    let id = PeerIdentity::from_bytes(vec![9, 8, 7]);
    assert_eq!(id.to_bytes(), vec![9, 8, 7]);
    assert!(id.same_as(&id.clone()));
    assert!(!id.same_as(&PeerIdentity::from_bytes(vec![9, 8])));
    assert!(id == id.clone());
    assert!(id != PeerIdentity::from_bytes(vec![9, 8, 6]));
    assert_eq!(PeerIdentity::from_bytes(vec![]), PeerIdentity::from_bytes(vec![]));
}

#[test]
fn the_identity_of_a_seed_is_that_of_its_key() {
    let seed = [3u8; 32];
    let pair = libp2p::identity::Keypair::ed25519_from_bytes(seed).expect("32 bytes");
    let expected = pair.public().to_peer_id().to_bytes();
    let id = PeerIdentity::from_seed(&seed);
    assert_eq!(id.to_bytes(), expected);
    assert_ne!(id.to_bytes(), seed.to_vec());
    // An Ed25519 key is short enough to stand in the identifier itself: two bytes of
    // multihash header, four of key header, and the 32 bytes of the public key.
    assert_eq!(expected.len(), 38);
    let other = PeerIdentity::from_seed(&[4u8; 32]);
    assert!(!id.same_as(&other));
}

#[test]
fn the_identity_of_the_zero_seed() {
    let id = PeerIdentity::from_seed(&[0u8; 32]);
    let peer = libp2p::PeerId::from_bytes(&id.to_bytes()).expect("a peer id");
    assert_eq!(peer.to_base58(), "12D3KooWDpJ7As7BWAwRMfu1VU2WCqNjvq387JEYKDBj4kx6nXTN");
}

#[test]
fn the_payload_of_a_voucher() {
    let peer = PeerIdentity::from_bytes(vec![0xaa, 0xbb]);
    let payload = Voucher::payload_of(&peer, 0x0102, 0x0a0b0c0d);
    assert_eq!(
        payload,
        vec![0x02, 0x01, 0, 0, 0, 0, 0, 0, 0x0d, 0x0c, 0x0b, 0x0a, 0, 0, 0, 0, 0xaa, 0xbb]
    );
}

#[test]
fn a_voucher_is_signed_by_the_relay() {
    let seed = [5u8; 32];
    let peer = PeerIdentity::from_bytes(vec![1, 2, 3, 4]);
    let voucher = Voucher::issue(&seed, &peer, 77, 1_000);
    assert_eq!(voucher.payload, Voucher::payload_of(&peer, 77, 1_000));
    assert_ne!(voucher.signature, voucher.payload);
    assert_eq!(voucher.signature.len(), 64);
    let pair = libp2p::identity::Keypair::ed25519_from_bytes(seed).expect("32 bytes");
    assert!(pair.public().verify(&voucher.payload, &voucher.signature));
    assert_eq!(voucher.signature, pair.sign(&voucher.payload).expect("a signature"));
    let stranger = libp2p::identity::Keypair::ed25519_from_bytes([6u8; 32]).expect("32 bytes");
    assert!(!stranger.public().verify(&voucher.payload, &voucher.signature));
}

#[test]
fn a_reservation_carries_the_voucher_of_its_relay() {
    let seed = [5u8; 32];
    let peer = PeerIdentity::from_bytes(vec![1, 2, 3, 4]);
    let mut engine = RelayEngine::new(seed, Limits::default());
    let reservation = engine.handle_reserve(&peer, 12).expect("there is room");
    let expected = Voucher::issue(&seed, &peer, 12, Limits::default().reservation_ttl);
    assert_eq!(reservation.voucher.payload, expected.payload);
    assert_eq!(reservation.voucher.signature, expected.signature);
    let relay = libp2p::PeerId::from_bytes(&engine.local_peer().to_bytes()).expect("a peer id");
    let pair = libp2p::identity::Keypair::ed25519_from_bytes(seed).expect("32 bytes");
    assert_eq!(relay, pair.public().to_peer_id());
}
