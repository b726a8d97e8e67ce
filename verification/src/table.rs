//! A key-value table for 256-bit keys, with exact-match reads and writes.
//!
//! A key is split into its two limbs: the high limb selects a row, the low
//! limb an entry of that row. Both levels are hash maps keyed by an integer.

use vstd::prelude::*;
use std::collections::HashMap;
use crate::ident::Key256;

verus! {

broadcast use vstd::std_specs::hash::group_hash_axioms;

/// A table from keys of type `K` to values of type `V`.
pub struct Table<K: Key256, V> {
    rows: HashMap<u128, HashMap<u128, V>>,
    _key: core::marker::PhantomData<K>,
}

impl<K: Key256, V> View for Table<K, V> {
    type V = Map<K, V>;

    /// The table as a map: a key is present where its high limb has a row
    /// and that row has its low limb.
    closed spec fn view(&self) -> Map<K, V> {
        Map::new(
            |k: K|
                self.rows@.contains_key(k.limbs().1) && self.rows@[k.limbs().1]@.contains_key(
                    k.limbs().0,
                ),
            |k: K| self.rows@[k.limbs().1]@[k.limbs().0],
        )
    }
}

impl<K: Key256, V> Table<K, V> {
    /// An empty table.
    pub fn new() -> (t: Self)
        ensures
            t@ == Map::<K, V>::empty(),
    {
        let t = Table { rows: HashMap::new(), _key: core::marker::PhantomData };
        assert(t@ =~= Map::<K, V>::empty());
        t
    }

    /// Whether `key` is present.
    pub fn contains_key(&self, key: &K) -> (r: bool)
        ensures
            r == self@.contains_key(*key),
    {
        let hi = key.high();
        let lo = key.low();
        match self.rows.get(&hi) {
            Some(row) => row.contains_key(&lo),
            None => false,
        }
    }

    /// The value stored under `key`, if any.
    pub fn get(&self, key: &K) -> (r: Option<&V>)
        ensures
            r == (if self@.contains_key(*key) {
                Some(&self@[*key])
            } else {
                None
            }),
    {
        let hi = key.high();
        let lo = key.low();
        match self.rows.get(&hi) {
            Some(row) => row.get(&lo),
            None => None,
        }
    }

    /// Stores `value` under `key`, in place of what was there.
    pub fn insert(&mut self, key: K, value: V)
        ensures
            final(self)@ == old(self)@.insert(key, value),
    {
        let hi = key.high();
        let lo = key.low();
        let mut row = match self.rows.remove(&hi) {
            Some(row) => row,
            None => HashMap::new(),
        };
        row.insert(lo, value);
        self.rows.insert(hi, row);
        proof {
            assert forall|k: K| #[trigger] k.limbs() == key.limbs() implies k == key by {
                K::limbs_determine(&k, &key);
            }
            assert(self@ =~= old(self)@.insert(key, value));
        }
    }

    /// Takes out what is stored under `key`, if anything.
    pub fn remove(&mut self, key: &K) -> (r: Option<V>)
        ensures
            final(self)@ == old(self)@.remove(*key),
            r == (if old(self)@.contains_key(*key) {
                Some(old(self)@[*key])
            } else {
                None
            }),
    {
        let hi = key.high();
        let lo = key.low();
        let r = match self.rows.remove(&hi) {
            Some(row) => {
                let mut row = row;
                let r = row.remove(&lo);
                if !row.is_empty() {
                    self.rows.insert(hi, row);
                }
                r
            },
            None => None,
        };
        proof {
            assert forall|k: K| #[trigger] k.limbs() == key.limbs() implies k == *key by {
                K::limbs_determine(&k, key);
            }
            assert(self@ =~= old(self)@.remove(*key));
        }
        r
    }
}

} // verus!
