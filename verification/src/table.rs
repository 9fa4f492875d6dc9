//! A small map kept as a list of pairs.

use vstd::prelude::*;

verus! {

/// A key of a table: a plain value that can be told from another.
pub trait Key: Copy {
    /// Whether the two keys are the same.
    fn same(&self, other: &Self) -> (r: bool)
        ensures
            r == (*self == *other),
    ;
}

impl Key for u64 {
    fn same(&self, other: &u64) -> (r: bool) {
        *self == *other
    }
}

/// A small map, kept as a list of pairs in the order in which the keys
/// first came.
pub struct Table<K, V> {
    elems: Vec<(K, V)>,
}

/// The value of the first pair of `elems` that holds `key`.
pub open spec fn lookup<K, V>(elems: Seq<(K, V)>, key: K) -> Option<V>
    decreases elems.len(),
{
    if elems.len() == 0 {
        None
    } else {
        match lookup(elems.drop_last(), key) {
            Some(value) => Some(value),
            None => if elems.last().0 == key {
                Some(elems.last().1)
            } else {
                None
            },
        }
    }
}

/// The map that a list of pairs stands for.
pub open spec fn table_of<K, V>(elems: Seq<(K, V)>) -> Map<K, V> {
    Map::new(|key: K| lookup(elems, key) is Some, |key: K| lookup(elems, key)->0)
}

/// A key that none of the first `upto` pairs holds is looked up among the rest.
proof fn lemma_lookup_absent<K, V>(elems: Seq<(K, V)>, key: K, upto: int)
    requires
        0 <= upto <= elems.len(),
        forall|k: int| 0 <= k < upto ==> elems[k].0 != key,
    ensures
        lookup(elems.take(upto), key) is None,
    decreases upto,
{
    if upto > 0 {
        assert(elems.take(upto).drop_last() =~= elems.take(upto - 1));
        lemma_lookup_absent(elems, key, upto - 1);
    }
}

/// The pair at the first place of a key decides what the key maps to,
/// whatever follows.
proof fn lemma_lookup_first<K, V>(elems: Seq<(K, V)>, key: K, at: int, upto: int)
    requires
        0 <= at < upto <= elems.len(),
        elems[at].0 == key,
        forall|k: int| 0 <= k < at ==> elems[k].0 != key,
    ensures
        lookup(elems.take(upto), key) == Some(elems[at].1),
    decreases upto,
{
    assert(elems.take(upto).drop_last() =~= elems.take(upto - 1));
    if upto == at + 1 {
        lemma_lookup_absent(elems, key, at);
    } else {
        lemma_lookup_first(elems, key, at, upto - 1);
    }
}

/// Replacing the pair at the first place of a key changes what that key
/// maps to and nothing else.
proof fn lemma_lookup_update<K, V>(elems: Seq<(K, V)>, at: int, value: V, key: K, upto: int)
    requires
        0 <= at < elems.len(),
        0 <= upto <= elems.len(),
        forall|k: int| 0 <= k < at ==> elems[k].0 != elems[at].0,
        key != elems[at].0,
    ensures
        lookup(elems.update(at, (elems[at].0, value)).take(upto), key) == lookup(
            elems.take(upto),
            key,
        ),
    decreases upto,
{
    let changed = elems.update(at, (elems[at].0, value));
    if upto > 0 {
        assert(changed.take(upto).drop_last() =~= changed.take(upto - 1));
        assert(elems.take(upto).drop_last() =~= elems.take(upto - 1));
        lemma_lookup_update(elems, at, value, key, upto - 1);
    }
}

impl<K: Key, V: Copy> Table<K, V> {
    /// The map that the table stands for.
    pub closed spec fn view(&self) -> Map<K, V> {
        table_of(self.elems@)
    }

    /// A table without entries.
    pub fn new() -> (r: Table<K, V>)
        ensures
            r@ == Map::<K, V>::empty(),
    {
        let r = Table { elems: Vec::new() };
        assert(r@ =~= Map::<K, V>::empty());
        r
    }

    /// Whether the table has no entry.
    pub fn is_empty(&self) -> (r: bool)
        ensures
            r <==> self@ == Map::<K, V>::empty(),
    {
        proof {
            if self.elems@.len() == 0 {
                assert(self@ =~= Map::<K, V>::empty());
            } else {
                let key = self.elems@[0].0;
                assert(self.elems@.take(self.elems@.len() as int) =~= self.elems@);
                lemma_lookup_first(self.elems@, key, 0, self.elems@.len() as int);
                assert(self@.dom().contains(key));
            }
        }
        self.elems.is_empty()
    }

    /// The place of the first pair that holds `key`.
    fn find(&self, key: K) -> (r: Option<usize>)
        ensures
            r matches Some(at) ==> at < self.elems@.len() && self.elems@[at as int].0 == key
                && lookup(self.elems@, key) == Some(self.elems@[at as int].1) && forall|k: int|
                0 <= k < at ==> self.elems@[k].0 != key,
            r is None ==> lookup(self.elems@, key) is None,
    {
        let mut i: usize = 0;
        while i < self.elems.len()
            invariant
                i <= self.elems.len(),
                forall|k: int| 0 <= k < i ==> self.elems@[k].0 != key,
            decreases self.elems.len() - i,
        {
            if self.elems[i].0.same(&key) {
                proof {
                    assert(self.elems@.take(self.elems@.len() as int) =~= self.elems@);
                    lemma_lookup_first(self.elems@, key, i as int, self.elems@.len() as int);
                }
                return Some(i);
            }
            i += 1;
        }
        proof {
            assert(self.elems@.take(self.elems@.len() as int) =~= self.elems@);
            lemma_lookup_absent(self.elems@, key, self.elems@.len() as int);
        }
        None
    }

    /// Whether the table has an entry for `key`.
    pub fn contains_key(&self, key: K) -> (r: bool)
        ensures
            r == self@.dom().contains(key),
    {
        self.find(key).is_some()
    }

    /// What `key` is mapped to.
    pub fn get(&self, key: K) -> (r: Option<V>)
        ensures
            r == if self@.dom().contains(key) {
                Some(self@[key])
            } else {
                None
            },
    {
        match self.find(key) {
            Some(at) => Some(self.elems[at].1),
            None => None,
        }
    }

    /// Maps `key` to `value`, in place of what it was mapped to.
    pub fn insert(&mut self, key: K, value: V)
        ensures
            final(self)@ == old(self)@.insert(key, value),
    {
        let ghost before = self.elems@;
        match self.find(key) {
            Some(at) => {
                self.elems[at] = (key, value);
                proof {
                    let after = self.elems@;
                    let n = before.len() as int;
                    assert(after =~= before.update(at as int, (before[at as int].0, value)));
                    assert(after.take(n) =~= after);
                    assert(before.take(n) =~= before);
                    lemma_lookup_first(after, key, at as int, n);
                    assert forall|other: K| other != key implies lookup(after, other) == lookup(
                        before,
                        other,
                    ) by {
                        lemma_lookup_update(before, at as int, value, other, n);
                    }
                    assert(self@ =~= old(self)@.insert(key, value));
                }
            },
            None => {
                self.elems.push((key, value));
                proof {
                    let after = self.elems@;
                    assert(after.drop_last() =~= before);
                    assert(self@ =~= old(self)@.insert(key, value));
                }
            },
        }
    }

    /// Takes the entry for `key` out of the table, if there is one.
    pub fn remove(&mut self, key: K)
        ensures
            final(self)@ == old(self)@.remove(key),
    {
        let ghost before = self.elems@;
        let mut kept: Vec<(K, V)> = Vec::new();
        let mut i: usize = 0;
        while i < self.elems.len()
            invariant
                i <= self.elems.len(),
                self.elems@ == before,
                lookup(kept@, key) is None,
                forall|other: K|
                    other != key ==> lookup(kept@, other) == lookup(before.take(i as int), other),
            decreases self.elems.len() - i,
        {
            let ghost sofar = kept@;
            proof {
                assert(before.take(i + 1).drop_last() =~= before.take(i as int));
                assert(before.take(i + 1).last() == before[i as int]);
            }
            if !self.elems[i].0.same(&key) {
                kept.push(self.elems[i]);
                proof {
                    assert(kept@.drop_last() =~= sofar);
                    assert(kept@.last() == before[i as int]);
                }
            }
            proof {
                assert forall|other: K| other != key implies lookup(kept@, other) == lookup(
                    before.take(i + 1),
                    other,
                ) by {
                    assert(lookup(sofar, other) == lookup(before.take(i as int), other));
                }
            }
            i += 1;
        }
        self.elems = kept;
        proof {
            assert(before.take(before.len() as int) =~= before);
            assert(self@ =~= old(self)@.remove(key));
        }
    }
}

} // verus!
