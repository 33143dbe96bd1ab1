//! Peer identities.

use vstd::prelude::*;
use vstd::std_specs::cmp::PartialEqSpecImpl;

verus! {

/// Compares two byte strings.
pub fn bytes_equal(a: &Vec<u8>, b: &Vec<u8>) -> (same: bool)
    ensures
        same == (a@ == b@),
{
    if a.len() != b.len() {
        return false;
    }
    let mut i: usize = 0;
    while i < a.len()
        invariant
            a@.len() == b@.len(),
            i <= a@.len(),
            a@.subrange(0, i as int) == b@.subrange(0, i as int),
        decreases a@.len() - i,
    {
        if a[i] != b[i] {
            assert(a@.subrange(0, i + 1)[i as int] != b@.subrange(0, i + 1)[i as int]);
            return false;
        }
        assert(a@.subrange(0, i + 1) == a@.subrange(0, i as int).push(a@[i as int]));
        assert(b@.subrange(0, i + 1) == b@.subrange(0, i as int).push(b@[i as int]));
        i += 1;
    }
    assert(a@ == a@.subrange(0, i as int));
    assert(b@ == b@.subrange(0, i as int));
    true
}

/// The identifier of a peer: the bytes of the multihash of its public key.
#[derive(Debug, Hash)]
pub struct PeerIdentity {
    bytes: Vec<u8>,
}

impl View for PeerIdentity {
    type V = Seq<u8>;

    closed spec fn view(&self) -> Seq<u8> {
        self.bytes@
    }
}

impl PeerIdentity {
    /// The identity with these bytes, as the transport made them out.
    pub fn from_bytes(bytes: Vec<u8>) -> (id: PeerIdentity)
        ensures
            id@ == bytes@,
    {
        PeerIdentity { bytes }
    }

    /// Derives the identity of the node whose key pair is made from `seed`.
    pub fn from_seed(seed: &[u8; 32]) -> (id: PeerIdentity)
        ensures
            id@ == ed25519_peer_id(seed@),
    {
        PeerIdentity { bytes: peer_id_bytes(seed) }
    }

    /// The bytes of the identity.
    pub fn to_bytes(&self) -> (bytes: Vec<u8>)
        ensures
            bytes@ == self@,
    {
        self.bytes.clone()
    }

    /// Whether two identities are the same.
    pub fn same_as(&self, other: &PeerIdentity) -> (same: bool)
        ensures
            same == (self@ == other@),
    {
        bytes_equal(&self.bytes, &other.bytes)
    }
}

/// The identifier that belongs to the Ed25519 key pair made from a 32-byte seed.
pub uninterp spec fn ed25519_peer_id(seed: Seq<u8>) -> Seq<u8>;

/// The Ed25519 signature that the key pair made from a 32-byte seed gives a message.
pub uninterp spec fn ed25519_signature(seed: Seq<u8>, message: Seq<u8>) -> Seq<u8>;

/// Calls `libp2p::identity::Keypair::ed25519_from_bytes` on a copy of the seed, then
/// `public`, `to_peer_id` and `to_bytes`. A seed of 32 bytes is always accepted; the
/// bytes that come back depend on the seed alone and are given the name
/// `ed25519_peer_id`.
#[verifier::external_body]
pub(crate) fn peer_id_bytes(seed: &[u8; 32]) -> (bytes: Vec<u8>)
    ensures
        bytes@ == ed25519_peer_id(seed@),
{
    let pair = libp2p::identity::Keypair::ed25519_from_bytes(*seed).expect("a seed of 32 bytes");
    pair.public().to_peer_id().to_bytes()
}

/// Calls `libp2p::identity::Keypair::ed25519_from_bytes` on a copy of the seed, then
/// `sign` on the message. Ed25519 signing cannot fail and is deterministic; the
/// signature is given the name `ed25519_signature`.
#[verifier::external_body]
pub(crate) fn signature_bytes(seed: &[u8; 32], message: &Vec<u8>) -> (signature: Vec<u8>)
    ensures
        signature@ == ed25519_signature(seed@, message@),
{
    let pair = libp2p::identity::Keypair::ed25519_from_bytes(*seed).expect("a seed of 32 bytes");
    pair.sign(message.as_slice()).expect("an Ed25519 signature")
}

impl PartialEq for PeerIdentity {
    fn eq(&self, other: &PeerIdentity) -> (same: bool) {
        bytes_equal(&self.bytes, &other.bytes)
    }
}

impl PartialEqSpecImpl for PeerIdentity {
    open spec fn obeys_eq_spec() -> bool {
        true
    }

    open spec fn eq_spec(&self, other: &PeerIdentity) -> bool {
        self@ == other@
    }
}

impl Eq for PeerIdentity {}

impl Clone for PeerIdentity {
    fn clone(&self) -> (id: PeerIdentity)
        ensures
            id@ == self@,
    {
        PeerIdentity { bytes: self.bytes.clone() }
    }
}

} // verus!
