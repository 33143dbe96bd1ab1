//! The address discovery agent: what the node announces to a peer, and what it learns from
//! what a peer announces.

use vstd::prelude::*;
use crate::address::{is_address, AddressSet, Multiaddress};

verus! {

/// What a list of byte strings holds, as mathematical values.
pub open spec fn byte_views(items: Seq<Vec<u8>>) -> Seq<Seq<u8>> {
    items.map_values(|item: Vec<u8>| item@)
}

/// What one side of a connection announces to the other, as it came off the wire: the
/// version of the protocol it speaks, the addresses it listens on, and the address at which
/// it sees the other side.
#[derive(Debug)]
pub struct Announcement {
    pub protocol_version: String,
    pub listen_addrs: Vec<Vec<u8>>,
    pub observed: Vec<u8>,
}

/// The address discovery agent of a node.
#[derive(Debug)]
pub struct DiscoveryAgent {
    protocol_version: String,
    addresses: AddressSet,
}

impl DiscoveryAgent {
    /// Whether the agent is in order.
    pub closed spec fn wf(&self) -> bool {
        self.addresses.wf()
    }

    /// The version of the protocol that the node speaks.
    pub closed spec fn version(&self) -> Seq<char> {
        self.protocol_version@
    }

    /// The addresses at which the node believes it can be reached, in the order in which
    /// it learnt them.
    pub closed spec fn known(&self) -> Seq<Seq<u8>> {
        self.addresses@
    }

    /// Whether the node learns an address from an announcement: the peer speaks the
    /// node's version of the protocol, and the address at which it sees the node is an
    /// address that the node does not know yet.
    pub open spec fn learns(&self, version: Seq<char>, observed: Seq<u8>) -> bool {
        &&& version == self.version()
        &&& is_address(observed)
        &&& !self.known().contains(observed)
    }

    /// The agent of a node that knows none of its addresses yet.
    pub fn new(protocol_version: String) -> (agent: DiscoveryAgent)
        ensures
            agent.wf(),
            agent.version() == protocol_version@,
            agent.known() == Seq::<Seq<u8>>::empty(),
    {
        DiscoveryAgent { protocol_version, addresses: AddressSet::new() }
    }

    /// The addresses at which the node believes it can be reached.
    pub fn addresses(&self) -> (set: &AddressSet)
        ensures
            set@ == self.known(),
            set.wf() == self.wf(),
    {
        &self.addresses
    }

    /// Takes note of an address on which the node listens, and says whether it is new.
    pub fn on_listen_address(&mut self, address: Multiaddress) -> (new: bool)
        requires
            old(self).wf(),
        ensures
            final(self).wf(),
            final(self).version() == old(self).version(),
            new == !old(self).known().contains(address@),
            final(self).known() == if new {
                old(self).known().push(address@)
            } else {
                old(self).known()
            },
    {
        self.addresses.insert(address)
    }

    /// Takes note of what a peer announced. Where the node learns an address from it, the
    /// address joins the known ones and is returned. An announcement in another version of
    /// the protocol, or one whose observed address is no address, is passed over.
    pub fn on_announcement(&mut self, announcement: &Announcement) -> (learnt: Option<Multiaddress>)
        requires
            old(self).wf(),
        ensures
            final(self).wf(),
            final(self).version() == old(self).version(),
            match learnt {
                Some(address) => {
                    &&& old(self).learns(announcement.protocol_version@, announcement.observed@)
                    &&& address@ == announcement.observed@
                    &&& final(self).known() == old(self).known().push(address@)
                },
                None => {
                    &&& !old(self).learns(announcement.protocol_version@, announcement.observed@)
                    &&& final(self).known() == old(self).known()
                },
            },
    {
        if announcement.protocol_version != self.protocol_version {
            return None;
        }
        match Multiaddress::parse(announcement.observed.clone()) {
            None => None,
            Some(address) => {
                let copy = address.clone();
                if self.addresses.insert(address) {
                    Some(copy)
                } else {
                    None
                }
            },
        }
    }

    /// What the node announces to a peer that it sees at `observed`.
    pub fn announce(&self, observed: &Multiaddress) -> (announcement: Announcement)
        ensures
            announcement.protocol_version@ == self.version(),
            byte_views(announcement.listen_addrs@) == self.known(),
            announcement.observed@ == observed@,
    {
        let mut listen_addrs: Vec<Vec<u8>> = Vec::new();
        let mut i: usize = 0;
        while i < self.addresses.len()
            invariant
                i <= self.addresses@.len(),
                byte_views(listen_addrs@) == self.addresses@.subrange(0, i as int),
            decreases self.addresses@.len() - i,
        {
            let ghost before = byte_views(listen_addrs@);
            match self.addresses.get(i) {
                Some(address) => {
                    listen_addrs.push(address.to_bytes());
                    assert(byte_views(listen_addrs@) =~= before.push(self.addresses@[i as int]));
                },
                None => {},
            }
            i += 1;
        }
        assert(self.addresses@.subrange(0, i as int) =~= self.addresses@);
        Announcement {
            protocol_version: self.protocol_version.clone(),
            listen_addrs,
            observed: observed.to_bytes(),
        }
    }
}

} // verus!
