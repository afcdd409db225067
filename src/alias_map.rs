//! A map in which several keys can name one stored value.
use vstd::prelude::*;
use vstd::std_specs::hash::{
    builds_valid_hashers, contains_borrowed_key,
    maps_borrowed_key_to_value, obeys_key_model,
};
use std::borrow::Borrow;
use std::collections::hash_map::RandomState;
use std::collections::HashMap;
use std::hash::Hash;

verus! {

/// Values stored once, each reachable under one or more keys.
pub struct AliasMap<K, V> where K: Eq + Hash {
    aliases: HashMap<K, usize>,
    data: Vec<V>,
}

/// The key type hashes and compares as its model says, so that the map's
/// operations follow their specification.
pub open spec fn keys_behave<K>() -> bool {
    obeys_key_model::<K>() && builds_valid_hashers::<RandomState>()
}

/// `key` names no stored value of `m`: it names no slot, or (which a
/// well-formed map never holds for a key of its own type) one past the end.
pub open spec fn names_no_value<K: Eq + Hash, V, Q: ?Sized>(m: AliasMap<K, V>, key: &Q) -> bool {
    !contains_borrowed_key(m.spec_slots(), key) || exists|i: usize|
        maps_borrowed_key_to_value(m.spec_slots(), key, i) && i >= m.spec_values().len()
}

impl<K, V> AliasMap<K, V> where K: Eq + Hash {
    /// The slot that each key names.
    pub closed spec fn spec_slots(&self) -> Map<K, usize> {
        self.aliases@
    }

    /// The stored values, by slot.
    pub closed spec fn spec_values(&self) -> Seq<V> {
        self.data@
    }

    /// Every key names a stored value.
    pub closed spec fn wf(&self) -> bool {
        forall|k: K| #[trigger] self.aliases@.contains_key(k) ==> self.aliases@[k] < self.data@.len()
    }

    /// An empty map.
    pub fn new() -> (r: Self)
        ensures
            r.wf(),
            r.spec_slots() == Map::<K, usize>::empty(),
            r.spec_values() == Seq::<V>::empty(),
    {
        AliasMap { aliases: HashMap::new(), data: Vec::new() }
    }

    /// An empty map with room for `key_count` keys and `value_count` values.
    pub fn with_capacities(key_count: usize, value_count: usize) -> (r: Self)
        ensures
            r.wf(),
            r.spec_slots() == Map::<K, usize>::empty(),
            r.spec_values() == Seq::<V>::empty(),
    {
        AliasMap { aliases: HashMap::with_capacity(key_count), data: Vec::with_capacity(value_count) }
    }

    /// Stores `value` in a new slot under `key`, which stops naming any
    /// earlier value; returns the stored value.
    pub fn insert(&mut self, key: K, value: V) -> (r: &V)
        ensures
            final(self).spec_values() == old(self).spec_values().push(value),
            *r == value,
            keys_behave::<K>() ==> final(self).spec_slots() == old(self).spec_slots().insert(
                key,
                old(self).spec_values().len() as usize,
            ),
            keys_behave::<K>() && old(self).wf() ==> final(self).wf(),
    {
        let data_index = self.data.len();
        self.data.push(value);
        self.aliases.insert(key, data_index);
        &self.data[data_index]
    }

    /// Makes `new_key` name the value that `previous_key` names. Fails, and
    /// changes nothing, when `previous_key` names none.
    pub fn alias<Q>(&mut self, previous_key: &Q, new_key: K) -> (r: Result<(), &'static str>) where
        K: Borrow<Q>,
        Q: Hash + Eq + ?Sized,

        ensures
            final(self).spec_values() == old(self).spec_values(),
            keys_behave::<K>() && old(self).wf() ==> final(self).wf(),
            keys_behave::<K>() ==> match r {
                Ok(()) => exists|i: usize|
                    maps_borrowed_key_to_value(old(self).spec_slots(), previous_key, i)
                        && final(self).spec_slots() == old(self).spec_slots().insert(new_key, i),
                Err(_) => names_no_value(*old(self), previous_key) && final(self).spec_slots() == old(
                    self,
                ).spec_slots(),
            },
    {
        let found = match self.aliases.get(previous_key) {
            Some(i) => Some(*i),
            None => None,
        };
        match found {
            Some(data_index) => {
                if data_index < self.data.len() {
                    let ghost before = self.spec_slots();
                    proof {
                        if keys_behave::<K>() {
                            assert(maps_borrowed_key_to_value(before, previous_key, data_index));
                        }
                    }
                    self.aliases.insert(new_key, data_index);
                    Ok(())
                } else {
                    proof {
                        if keys_behave::<K>() {
                            assert(maps_borrowed_key_to_value(self.spec_slots(), previous_key, data_index));
                            assert(names_no_value(*self, previous_key));
                        }
                    }
                    Err("Previous key does not exist.")
                }
            },
            None => Err("Previous key does not exist."),
        }
    }

    /// The value that `key` names, if any.
    pub fn get<Q>(&self, key: &Q) -> (r: Option<&V>) where K: Borrow<Q>, Q: Hash + Eq + ?Sized
        ensures
            keys_behave::<K>() ==> match r {
                Some(v) => exists|i: usize|
                    maps_borrowed_key_to_value(self.spec_slots(), key, i) && i < self.spec_values().len()
                        && *v == self.spec_values()[i as int],
                None => names_no_value(*self, key),
            },
    {
        match self.aliases.get(key) {
            Some(i) => {
                let data_index = *i;
                if data_index < self.data.len() {
                    proof {
                        if keys_behave::<K>() {
                            assert(maps_borrowed_key_to_value(self.spec_slots(), key, data_index));
                        }
                    }
                    let v = &self.data[data_index];
                    assert(*v == self.spec_values()[data_index as int]);
                    Some(v)
                } else {
                    proof {
                        if keys_behave::<K>() {
                            assert(maps_borrowed_key_to_value(self.spec_slots(), key, data_index));
                            assert(names_no_value(*self, key));
                        }
                    }
                    None
                }
            },
            None => {
                assert(keys_behave::<K>() ==> names_no_value(*self, key));
                None
            },
        }
    }
}

} // verus!
