//! The two kinds of state that outlive a packet: an array of fixed capacity
//! and a map that holds no more than a fixed number of keys.

use std::collections::HashMap;
use std::hash::Hash;
use vstd::prelude::*;
use vstd::std_specs::hash::obeys_key_model;

verus! {

broadcast use vstd::std_specs::hash::group_hash_axioms;

/// The map holds as many keys as it may, and the key to insert is not among
/// them.
#[derive(Copy, Clone, Debug, PartialEq, Eq, Structural)]
pub struct CapacityError;

/// A sequence of values with a capacity fixed at creation. Every place exists
/// from the start; none is added or removed.
#[derive(Debug)]
pub struct FixedArray<V> {
    items: Vec<V>,
}

impl<V> View for FixedArray<V> {
    type V = Seq<V>;

    closed spec fn view(&self) -> Seq<V> {
        self.items@
    }
}

impl<V: Copy> FixedArray<V> {
    /// An array of `capacity` places, each holding `init`.
    pub fn new(capacity: usize, init: V) -> (a: FixedArray<V>)
        ensures
            a@.len() == capacity,
            forall|i: int| 0 <= i < capacity ==> a@[i] == init,
    {
        let mut items: Vec<V> = Vec::new();
        let mut i: usize = 0;
        while i < capacity
            invariant
                i <= capacity,
                items@.len() == i,
                forall|k: int| 0 <= k < i ==> items@[k] == init,
            decreases capacity - i,
        {
            items.push(init);
            i += 1;
        }
        FixedArray { items }
    }
}

impl<V> FixedArray<V> {
    /// The number of places.
    pub fn capacity(&self) -> (n: usize)
        ensures
            n == self@.len(),
    {
        self.items.len()
    }

    /// The value at `index`, or `None` where `index` is no place of the array.
    pub fn get(&self, index: usize) -> (r: Option<&V>)
        ensures
            match r {
                Some(v) => index < self@.len() && *v == self@[index as int],
                None => index >= self@.len(),
            },
    {
        if index < self.items.len() {
            Some(&self.items[index])
        } else {
            None
        }
    }

    /// The place at `index` for writing, or `None` where `index` is no place
    /// of the array. Only that place can change, and the capacity stays.
    pub fn get_mut(&mut self, index: usize) -> (r: Option<&mut V>)
        ensures
            index >= old(self)@.len() ==> r.is_none() && final(self)@ == old(self)@,
            index < old(self)@.len() ==> r.is_some() && *r.unwrap() == old(self)@[index as int]
                && final(self)@ == old(self)@.update(index as int, *final(r.unwrap())),
    {
        if index < self.items.len() {
            Some(&mut self.items[index])
        } else {
            None
        }
    }
}

/// `HashMap::get_mut` of std: the value stored under `k`, for writing, or
/// `None` where the map holds no such key. Through the reference only that
/// value can change; the set of keys stays as it is.
#[verifier::external_body]
fn hash_map_get_mut<'a, K: Eq + Hash, V>(m: &'a mut HashMap<K, V>, k: &K) -> (r: Option<&'a mut V>)
    ensures
        obeys_key_model::<K>() ==> (!old(m)@.contains_key(*k) ==> r.is_none() && final(m)@ == old(m)@),
        obeys_key_model::<K>() ==> (old(m)@.contains_key(*k) ==> r.is_some() && *r.unwrap() == old(m)@[*k] && final(m)@ == old(m)@.insert(*k, *final(r.unwrap())) && final(m)@.dom() == old(m)@.dom()),
{
    m.get_mut(k)
}

/// A map from keys to values that never holds more than `capacity` keys.
#[derive(Debug)]
pub struct BoundedMap<K, V> {
    map: HashMap<K, V>,
    capacity: usize,
}

impl<K, V> View for BoundedMap<K, V> {
    type V = Map<K, V>;

    closed spec fn view(&self) -> Map<K, V> {
        self.map@
    }
}

impl<K: Eq + Hash + Copy, V: Copy> BoundedMap<K, V> {
    /// The largest number of keys that the map may hold.
    pub closed spec fn spec_capacity(&self) -> nat {
        self.capacity as nat
    }

    /// The map holds finitely many keys, no more than its capacity, and its
    /// keys are of a type that hashes as its equality says.
    pub closed spec fn wf(&self) -> bool {
        &&& obeys_key_model::<K>()
        &&& self.map@.dom().finite()
        &&& self.map@.len() <= self.capacity
    }

    /// What `wf` promises, in terms of the view.
    pub proof fn lemma_wf(&self)
        requires
            self.wf(),
        ensures
            self@.dom().finite(),
            self@.len() <= self.spec_capacity(),
            obeys_key_model::<K>(),
    {
    }

    /// An empty map that may hold up to `capacity` keys.
    pub fn new(capacity: usize) -> (m: BoundedMap<K, V>)
        requires
            obeys_key_model::<K>(),
        ensures
            m.wf(),
            m@ == Map::<K, V>::empty(),
            m.spec_capacity() == capacity,
    {
        BoundedMap { map: HashMap::new(), capacity }
    }

    /// The largest number of keys that the map may hold.
    pub fn capacity(&self) -> (n: usize)
        ensures
            n == self.spec_capacity(),
    {
        self.capacity
    }

    /// The number of keys that the map holds.
    pub fn len(&self) -> (n: usize)
        requires
            self.wf(),
        ensures
            n == self@.len(),
            n <= self.spec_capacity(),
    {
        self.map.len()
    }

    /// The value stored under `key`, if there is one.
    pub fn get(&self, key: &K) -> (r: Option<&V>)
        requires
            self.wf(),
        ensures
            match r {
                Some(v) => self@.contains_key(*key) && *v == self@[*key],
                None => !self@.contains_key(*key),
            },
    {
        self.map.get(key)
    }

    /// The value stored under `key`, for writing, if there is one. Only that
    /// value can change; the keys and the capacity stay.
    pub fn get_mut(&mut self, key: &K) -> (r: Option<&mut V>)
        requires
            old(self).wf(),
        ensures
            final(self).wf(),
            final(self).spec_capacity() == old(self).spec_capacity(),
            !old(self)@.contains_key(*key) ==> r.is_none() && final(self)@ == old(self)@,
            old(self)@.contains_key(*key) ==> r.is_some() && *r.unwrap() == old(self)@[*key]
                && final(self)@ == old(self)@.insert(*key, *final(r.unwrap())),
    {
        hash_map_get_mut(&mut self.map, key)
    }

    /// Stores `value` under `key`. A key that the map holds gets the new
    /// value. A new key is taken in only while the map holds fewer keys than
    /// its capacity; otherwise the map stays as it is.
    pub fn insert(&mut self, key: &K, value: &V) -> (r: Result<(), CapacityError>)
        requires
            old(self).wf(),
        ensures
            final(self).wf(),
            final(self).spec_capacity() == old(self).spec_capacity(),
            match r {
                Ok(_) => (old(self)@.contains_key(*key) || old(self)@.len() < old(self).spec_capacity()) && final(self)@ == old(self)@.insert(*key, *value),
                Err(_) => !old(self)@.contains_key(*key) && old(self)@.len() >= old(self).spec_capacity() && final(self)@ == old(self)@,
            },
    {
        if !self.map.contains_key(key) && self.map.len() >= self.capacity {
            return Err(CapacityError);
        }
        proof {
            if self.map@.contains_key(*key) {
                assert(self.map@.insert(*key, *value).dom() =~= self.map@.dom());
            }
        }
        self.map.insert(*key, *value);
        Ok(())
    }

    /// Takes `key` out of the map and returns the value it had, if any.
    pub fn remove(&mut self, key: &K) -> (r: Option<V>)
        requires
            old(self).wf(),
        ensures
            final(self).wf(),
            final(self).spec_capacity() == old(self).spec_capacity(),
            final(self)@ == old(self)@.remove(*key),
            match r {
                Some(v) => old(self)@.contains_key(*key) && v == old(self)@[*key],
                None => !old(self)@.contains_key(*key),
            },
    {
        let r = self.map.remove(key);
        proof {
            if old(self).map@.contains_key(*key) {
                assert(old(self).map@.remove(*key).len() < old(self).map@.len());
            } else {
                assert(old(self).map@.remove(*key) =~= old(self).map@);
            }
        }
        r
    }
}

} // verus!
