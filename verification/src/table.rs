//! A table with one entry per remote address.

use crate::addr::{key_is_injective, key_of, AddrKey, PeerAddr};
use std::collections::BTreeMap;
use vstd::prelude::*;

verus! {

broadcast use {vstd::laws_cmp::group_laws_cmp, vstd::std_specs::btree::group_btree_axioms};

/// Entries keyed by remote address. Entries are never removed.
pub struct AddrTable<V> {
    entries: BTreeMap<AddrKey, V>,
}

impl<V: View> View for AddrTable<V> {
    type V = Map<PeerAddr, V::V>;

    closed spec fn view(&self) -> Map<PeerAddr, V::V> {
        Map::new(
            |addr: PeerAddr| self.entries@.contains_key(key_of(addr)),
            |addr: PeerAddr| self.entries@[key_of(addr)]@,
        )
    }
}

impl<V: View + Copy> AddrTable<V> {
    /// A table without entries.
    pub fn new() -> (table: Self)
        ensures
            table@ == Map::<PeerAddr, V::V>::empty(),
    {
        let table = AddrTable { entries: BTreeMap::new() };
        assert(table@ =~= Map::<PeerAddr, V::V>::empty());
        table
    }

    /// The entry of an address, if it has one.
    pub fn get(&self, addr: PeerAddr) -> (entry: Option<V>)
        ensures
            entry is Some <==> self@.contains_key(addr),
            entry matches Some(v) ==> v@ == self@[addr],
    {
        match self.entries.get(&addr.key()) {
            Some(entry) => Some(*entry),
            None => None,
        }
    }

    /// Sets the entry of an address and leaves every other entry as it is.
    pub fn set(&mut self, addr: PeerAddr, entry: V)
        ensures
            final(self)@ == old(self)@.insert(addr, entry@),
    {
        self.entries.insert(addr.key(), entry);
        assert(self@ =~= old(self)@.insert(addr, entry@)) by {
            assert forall|other: PeerAddr| key_of(other) == key_of(addr) <==> other == addr by {
                key_is_injective(other, addr);
            }
        }
    }
}

} // verus!
