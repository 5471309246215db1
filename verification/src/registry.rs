//! The connection registry of a gateway node: the connections that are
//! open, by remote address.

use vstd::prelude::*;
use crate::string_map::StringMap;

verus! {

/// The open connections of one node, each under its remote address.
///
/// `H` is whatever the node keeps of a connection to reach its socket. The
/// registry owns that handle from `register` until `unregister` hands it
/// back. Callers that share a registry between tasks guard it with one
/// lock; nothing here blocks.
#[derive(Debug)]
pub struct ConnectionRegistry<H> {
    connections: StringMap<H>,
}

impl<H> View for ConnectionRegistry<H> {
    type V = Map<Seq<char>, H>;

    closed spec fn view(&self) -> Map<Seq<char>, H> {
        self.connections@
    }
}

impl<H> ConnectionRegistry<H> {
    /// The registered addresses, in the order in which they were registered.
    pub closed spec fn addresses(&self) -> Seq<Seq<char>> {
        self.connections.keys()
    }

    /// The registered addresses are the keys of the view.
    pub proof fn lemma_addresses(&self)
        ensures
            self@.dom() =~= self.addresses().to_set(),
            self@.dom().finite(),
    {
        self.connections.lemma_dom_is_keys();
    }

    /// A registry without connections.
    pub fn new() -> (registry: Self)
        ensures
            registry@ == Map::<Seq<char>, H>::empty(),
            registry.addresses() == Seq::<Seq<char>>::empty(),
    {
        ConnectionRegistry { connections: StringMap::new() }
    }

    /// The number of open connections.
    pub fn len(&self) -> (n: usize)
        ensures
            n == self.addresses().len(),
            n == self@.dom().len(),
            self.addresses().no_duplicates(),
    {
        self.connections.len()
    }

    /// Whether no connection is open.
    pub fn is_empty(&self) -> (empty: bool)
        ensures
            empty == (self.addresses().len() == 0),
            empty == (self@ == Map::<Seq<char>, H>::empty()),
    {
        let n = self.connections.len();
        proof {
            self.lemma_addresses();
            if n == 0 {
                assert(self@ =~= Map::<Seq<char>, H>::empty());
            } else {
                assert(self@.dom().len() != Map::<Seq<char>, H>::empty().dom().len());
            }
        }
        n == 0
    }

    /// Whether a connection from `address` is open.
    pub fn contains(&self, address: &str) -> (found: bool)
        ensures
            found == self@.contains_key(address@),
    {
        self.connections.contains_key(address)
    }

    /// The handle of the connection from `address`, if it is open.
    pub fn get(&self, address: &str) -> (handle: Option<&H>)
        ensures
            match handle {
                Some(h) => self@.contains_key(address@) && *h == self@[address@],
                None => !self@.contains_key(address@),
            },
    {
        self.connections.get(address)
    }

    /// The address of the `i`-th connection.
    pub fn address_at(&self, i: usize) -> (address: &String)
        requires
            i < self.addresses().len(),
        ensures
            address@ == self.addresses()[i as int],
            self@.contains_key(address@),
    {
        self.connections.key_at(i)
    }

    /// The handle of the `i`-th connection.
    pub fn handle_at(&self, i: usize) -> (handle: &H)
        requires
            i < self.addresses().len(),
        ensures
            *handle == self@[self.addresses()[i as int]],
    {
        self.connections.value_at(i)
    }

    /// All registered addresses, for a caller that visits every connection.
    pub fn address_list(&self) -> (list: Vec<String>)
        ensures
            list@.len() == self.addresses().len(),
            forall|i: int| 0 <= i < list@.len() ==> (#[trigger] list@[i])@ == self.addresses()[i],
            self.addresses().no_duplicates(),
    {
        let n = self.connections.len();
        let mut list: Vec<String> = Vec::new();
        let mut i: usize = 0;
        while i < n
            invariant
                i <= n,
                n == self.addresses().len(),
                list@.len() == i,
                forall|k: int| 0 <= k < i ==> (#[trigger] list@[k])@ == self.addresses()[k],
            decreases n - i,
        {
            list.push(self.connections.key_at(i).clone());
            i += 1;
        }
        list
    }

    /// Registers the connection from `address`. If the address was already
    /// registered, the new handle takes the place of the old one, which is
    /// returned.
    pub fn register(&mut self, address: String, handle: H) -> (displaced: Option<H>)
        ensures
            final(self)@ == old(self)@.insert(address@, handle),
            displaced == (if old(self)@.contains_key(address@) {
                Some(old(self)@[address@])
            } else {
                None::<H>
            }),
            final(self).addresses() == (if old(self)@.contains_key(address@) {
                old(self).addresses()
            } else {
                old(self).addresses().push(address@)
            }),
    {
        self.connections.insert(address, handle)
    }

    /// Takes the connection from `address` out of the registry and returns
    /// its handle. Unregistering an address that is not registered changes
    /// nothing.
    pub fn unregister(&mut self, address: &str) -> (handle: Option<H>)
        ensures
            final(self)@ == old(self)@.remove(address@),
            handle == (if old(self)@.contains_key(address@) {
                Some(old(self)@[address@])
            } else {
                None::<H>
            }),
            final(self).addresses() == (if old(self)@.contains_key(address@) {
                old(self).addresses().remove(old(self).addresses().index_of(address@))
            } else {
                old(self).addresses()
            }),
    {
        self.connections.remove(address)
    }
}

/// Unregistering twice is the same as unregistering once.
pub proof fn lemma_unregister_is_idempotent<H>(connections: Map<Seq<char>, H>, address: Seq<char>)
    ensures
        connections.remove(address).remove(address) == connections.remove(address),
        !connections.contains_key(address) ==> connections.remove(address) == connections,
{
    assert(connections.remove(address).remove(address) =~= connections.remove(address));
    if !connections.contains_key(address) {
        assert(connections.remove(address) =~= connections);
    }
}

} // verus!
