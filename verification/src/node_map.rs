//! A small map keyed by node identifier.

use vstd::prelude::*;
use crate::command::Node;
use crate::table::{Key, Table};

verus! {

impl Key for Node {
    fn same(&self, other: &Node) -> (r: bool) {
        self.0 == other.0
    }
}

/// A small map keyed by node identifier.
pub struct NodeMap<T> {
    table: Table<Node, T>,
}

impl<T: Copy> NodeMap<T> {
    /// The map that the entries stand for.
    pub closed spec fn view(&self) -> Map<Node, T> {
        self.table@
    }

    /// A map without entries.
    pub fn new() -> (r: NodeMap<T>)
        ensures
            r@ == Map::<Node, T>::empty(),
    {
        NodeMap { table: Table::new() }
    }

    /// Whether the map has no entry.
    pub fn is_empty(&self) -> (r: bool)
        ensures
            r <==> self@ == Map::<Node, T>::empty(),
    {
        self.table.is_empty()
    }

    /// Whether the map has an entry for `node`.
    pub fn contains_key(&self, node: &Node) -> (r: bool)
        ensures
            r == self@.dom().contains(*node),
    {
        self.table.contains_key(*node)
    }

    /// Maps `key` to `value`, in place of what it was mapped to.
    pub fn insert(&mut self, key: &Node, value: T)
        ensures
            final(self)@ == old(self)@.insert(*key, value),
    {
        self.table.insert(*key, value);
    }

    /// What `key` is mapped to.
    pub fn get(&self, key: Node) -> (r: Option<T>)
        ensures
            r == if self@.dom().contains(key) {
                Some(self@[key])
            } else {
                None
            },
    {
        self.table.get(key)
    }
}

} // verus!
