//! The addresses at which the node believes it can be reached, and the agent that learns
//! them from what peers announce.

use vstd::prelude::*;
use vstd::std_specs::cmp::PartialEqSpecImpl;
use crate::identity::bytes_equal;

verus! {

/// Whether `bytes` are a multiaddress in its binary form.
pub uninterp spec fn is_multiaddr(bytes: Seq<u8>) -> bool;

/// Whether `bytes` name an address: a multiaddress that is not empty.
pub open spec fn is_address(bytes: Seq<u8>) -> bool {
    bytes.len() > 0 && is_multiaddr(bytes)
}

/// Calls `libp2p::Multiaddr::try_from` on a copy of the bytes and says whether it
/// succeeded. It reads the bytes protocol by protocol and fails on the first that it
/// cannot read; the outcome depends on the bytes alone and is given the name
/// `is_multiaddr`.
#[verifier::external_body]
fn parses_as_multiaddr(bytes: &Vec<u8>) -> (parses: bool)
    ensures
        parses == is_multiaddr(bytes@),
{
    libp2p::Multiaddr::try_from(bytes.clone()).is_ok()
}

/// An address of a node: a multiaddress in its binary form, never empty.
#[derive(Debug, Hash)]
pub struct Multiaddress {
    bytes: Vec<u8>,
}

impl View for Multiaddress {
    type V = Seq<u8>;

    closed spec fn view(&self) -> Seq<u8> {
        self.bytes@
    }
}

impl Multiaddress {
    #[verifier::type_invariant]
    spec fn names_an_address(self) -> bool {
        is_address(self.bytes@)
    }

    /// Reads an address from its binary form. There is none where the bytes are empty or
    /// are no multiaddress.
    pub fn parse(bytes: Vec<u8>) -> (address: Option<Multiaddress>)
        ensures
            match address {
                Some(a) => is_address(bytes@) && a@ == bytes@,
                None => !is_address(bytes@),
            },
    {
        if bytes.len() > 0 && parses_as_multiaddr(&bytes) {
            Some(Multiaddress { bytes })
        } else {
            None
        }
    }

    /// The binary form of the address.
    pub fn to_bytes(&self) -> (bytes: Vec<u8>)
        ensures
            bytes@ == self@,
            is_address(bytes@),
    {
        proof {
            use_type_invariant(self);
        }
        self.bytes.clone()
    }

    /// Whether two addresses are the same.
    pub fn same_as(&self, other: &Multiaddress) -> (same: bool)
        ensures
            same == (self@ == other@),
    {
        bytes_equal(&self.bytes, &other.bytes)
    }
}

impl PartialEq for Multiaddress {
    fn eq(&self, other: &Multiaddress) -> (same: bool) {
        bytes_equal(&self.bytes, &other.bytes)
    }
}

impl PartialEqSpecImpl for Multiaddress {
    open spec fn obeys_eq_spec() -> bool {
        true
    }

    open spec fn eq_spec(&self, other: &Multiaddress) -> bool {
        self@ == other@
    }
}

impl Eq for Multiaddress {}

impl Clone for Multiaddress {
    fn clone(&self) -> (address: Multiaddress)
        ensures
            address@ == self@,
    {
        proof {
            use_type_invariant(self);
        }
        Multiaddress { bytes: self.bytes.clone() }
    }
}

/// What a list of addresses holds, as mathematical values.
pub open spec fn address_views(addresses: Seq<Multiaddress>) -> Seq<Seq<u8>> {
    addresses.map_values(|a: Multiaddress| a@)
}

/// Whether no item of `s` occurs twice.
pub open spec fn all_distinct(s: Seq<Seq<u8>>) -> bool {
    forall|i: int, j: int| 0 <= i < j < s.len() ==> #[trigger] s[i] != #[trigger] s[j]
}

/// The addresses at which the node believes it can be reached, in the order in which it
/// learnt them. An address is never taken out, and none is held twice.
#[derive(Debug)]
pub struct AddressSet {
    entries: Vec<Multiaddress>,
}

impl View for AddressSet {
    type V = Seq<Seq<u8>>;

    closed spec fn view(&self) -> Seq<Seq<u8>> {
        address_views(self.entries@)
    }
}

impl AddressSet {
    /// Whether the set is in order: it holds no address twice.
    pub closed spec fn wf(&self) -> bool {
        all_distinct(address_views(self.entries@))
    }

    /// A set that holds no address.
    pub fn new() -> (set: AddressSet)
        ensures
            set.wf(),
            set@ == Seq::<Seq<u8>>::empty(),
    {
        let set = AddressSet { entries: Vec::new() };
        assert(set@ =~= Seq::<Seq<u8>>::empty());
        set
    }

    /// How many addresses the set holds.
    pub fn len(&self) -> (len: usize)
        ensures
            len == self@.len(),
    {
        self.entries.len()
    }

    /// The address that was learnt as number `i`.
    pub fn get(&self, i: usize) -> (address: Option<Multiaddress>)
        ensures
            match address {
                Some(a) => i < self@.len() && a@ == self@[i as int],
                None => i >= self@.len(),
            },
    {
        if i < self.entries.len() {
            Some(self.entries[i].clone())
        } else {
            None
        }
    }

    /// Whether the set holds `address`.
    pub fn contains(&self, address: &Multiaddress) -> (held: bool)
        ensures
            held == self@.contains(address@),
    {
        let mut i: usize = 0;
        while i < self.entries.len()
            invariant
                i <= self.entries.len(),
                forall|j: int| 0 <= j < i ==> self@[j] != address@,
            decreases self.entries.len() - i,
        {
            if self.entries[i].same_as(address) {
                assert(self@[i as int] == address@);
                return true;
            }
            i += 1;
        }
        false
    }

    /// Adds `address` unless the set holds it, and says whether it was added.
    pub fn insert(&mut self, address: Multiaddress) -> (added: bool)
        requires
            old(self).wf(),
        ensures
            final(self).wf(),
            added == !old(self)@.contains(address@),
            final(self)@ == if added {
                old(self)@.push(address@)
            } else {
                old(self)@
            },
    {
        if self.contains(&address) {
            false
        } else {
            let ghost before = self@;
            let ghost a = address@;
            self.entries.push(address);
            proof {
                assert(self@ =~= before.push(a));
                assert forall|i: int, j: int| 0 <= i < j < self@.len() implies #[trigger] self@[i]
                    != #[trigger] self@[j] by {
                    assert(self@[i] == before[i]);
                    if j < before.len() {
                        assert(self@[j] == before[j]);
                    } else {
                        assert(before.contains(before[i]));
                    }
                }
            }
            true
        }
    }
}

} // verus!
