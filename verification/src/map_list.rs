use vstd::prelude::*;

verus! {

use core::hash::Hash;
use std::collections::HashMap;
use std::collections::hash_map::RandomState;
use vstd::std_specs::hash::{builds_valid_hashers, obeys_key_model};

/// The hash-table contracts below are exact whenever the key type has a
/// sound hashing model; every integer key type does.
pub open spec fn hash_model_holds<K>() -> bool {
    obeys_key_model::<K>() && builds_valid_hashers::<RandomState>()
}

/// A map from keys to lists of entries, grown one entry at a time.
pub struct MapList<K, E> {
    map: HashMap<K, Vec<E>>,
}

impl<K, E> View for MapList<K, E> {
    type V = Map<K, Vec<E>>;

    closed spec fn view(&self) -> Map<K, Vec<E>> {
        self.map@
    }
}

impl<K: Eq + Hash, E> MapList<K, E> {
    pub fn new() -> (r: MapList<K, E>)
        ensures
            r@ == Map::<K, Vec<E>>::empty(),
    {
        MapList { map: HashMap::new() }
    }

    pub fn with_capacity(capacity: usize) -> (r: MapList<K, E>)
        ensures
            r@ == Map::<K, Vec<E>>::empty(),
    {
        MapList { map: HashMap::with_capacity(capacity) }
    }

    pub fn with_hashmap(provided_map: HashMap<K, Vec<E>>) -> (r: MapList<K, E>)
        ensures
            r@ == provided_map@,
    {
        MapList { map: provided_map }
    }

    pub fn len(&self) -> (r: usize)
        ensures
            hash_model_holds::<K>() ==> r == self@.len(),
    {
        self.map.len()
    }

    pub fn is_empty(&self) -> (r: bool)
        ensures
            hash_model_holds::<K>() ==> r == (self@.len() == 0),
    {
        self.map.is_empty()
    }

    pub fn clear(&mut self)
        ensures
            final(self)@ == Map::<K, Vec<E>>::empty(),
    {
        self.map.clear();
    }

    pub fn get(&self, key: &K) -> (r: Option<&Vec<E>>)
        ensures
            hash_model_holds::<K>() ==> r == (if self@.contains_key(*key) {
                Some(&self@[*key])
            } else {
                None
            }),
    {
        self.map.get(key)
    }

    /// Append one entry to the list under `key`, starting a fresh list when
    /// the key is new.
    pub fn insert(&mut self, key: K, elem: E)
        ensures
            hash_model_holds::<K>() ==> {
                &&& final(self)@.contains_key(key)
                &&& final(self)@[key]@ == (if old(self)@.contains_key(key) {
                    old(self)@[key]@.push(elem)
                } else {
                    seq![elem]
                })
                &&& final(self)@ == old(self)@.insert(key, final(self)@[key])
            },
    {
        match self.map.remove(&key) {
            Some(mut list) => {
                list.push(elem);
                self.map.insert(key, list);
            },
            None => {
                let mut list: Vec<E> = Vec::new();
                list.push(elem);
                proof {
                    assert(list@ =~= seq![elem]);
                }
                self.insert_list(key, list);
            },
        }
        proof {
            if hash_model_holds::<K>() {
                if old(self)@.contains_key(key) {
                    assert(self@ =~= old(self)@.insert(key, self@[key]));
                } else {
                    assert(self@ =~= old(self)@.insert(key, self@[key]));
                }
            }
        }
    }

    /// Replace the whole list under `key`, returning the one it displaces.
    pub fn insert_list(&mut self, key: K, list: Vec<E>) -> (r: Option<Vec<E>>)
        ensures
            hash_model_holds::<K>() ==> {
                &&& final(self)@ == old(self)@.insert(key, list)
                &&& r == (if old(self)@.contains_key(key) {
                    Some(old(self)@[key])
                } else {
                    None::<Vec<E>>
                })
            },
    {
        self.map.insert(key, list)
    }

    pub fn remove(&mut self, key: &K) -> (r: Option<Vec<E>>)
        ensures
            hash_model_holds::<K>() ==> {
                &&& final(self)@ == old(self)@.remove(*key)
                &&& r == (if old(self)@.contains_key(*key) {
                    Some(old(self)@[*key])
                } else {
                    None::<Vec<E>>
                })
            },
    {
        self.map.remove(key)
    }
}

} // verus!
