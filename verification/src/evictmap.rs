//! A keyed registry of small integers.
//!
//! For each key the registry hands out the smallest integer that is not
//! in use under that key, and takes integers back to hand them out again,
//! smallest first. Keys do not share anything.
pub mod bucket;

use crate::evictmap::bucket::{
    after_allocate, after_allocations, after_release, is_next_slot, next_slot, release_succeeds,
    Bucket,
};
use core::hash::Hash;
use std::collections::HashMap;
use vstd::prelude::*;
use vstd::std_specs::hash::obeys_key_model;

verus! {

/// An allocation or a release under `key` leaves the integers in use under
/// any other key as they were.
pub proof fn lemma_keys_are_independent<K>(
    slots: Map<K, Set<usize>>,
    key: K,
    other: K,
    number: usize,
)
    requires
        key != other,
    ensures
        slots.insert(key, after_allocate(slots[key]))[other] == slots[other],
        slots.insert(key, after_release(slots[key], number))[other] == slots[other],
{
}

/// Every key counts from 0 on its own: after `count` allocations under
/// `key`, a key that has nothing in use still gets 0, and `key` gets `count`.
pub proof fn lemma_keys_count_on_their_own<K>(
    slots: Map<K, Set<usize>>,
    key: K,
    other: K,
    count: nat,
)
    requires
        key != other,
        count <= usize::MAX,
        slots[key] == Set::<usize>::empty(),
        slots[other] == Set::<usize>::empty(),
    ensures
        ({
            let busy = slots.insert(key, after_allocations(slots[key], count));
            &&& next_slot(busy[other]) == 0
            &&& next_slot(busy[key]) == count
        }),
{
    crate::evictmap::bucket::lemma_fresh_bucket_counts_up(count);
    crate::evictmap::bucket::lemma_fresh_bucket_counts_up(0);
}

/// The registry: one bucket per key that was ever asked for.
///
/// The view gives, for every key, the set of integers in use under it. A
/// key that was never asked for has the empty set.
#[derive(Debug)]
pub struct EvictMap<K> {
    /// Where in `buckets` the bucket of each key stands.
    places: HashMap<K, usize>,
    buckets: Vec<Bucket>,
}

impl<K> View for EvictMap<K> {
    type V = Map<K, Set<usize>>;

    open spec fn view(&self) -> Map<K, Set<usize>> {
        Map::total(|key: K| self.slots(key))
    }
}

impl<K> EvictMap<K> {
    /// The integers in use under `key`.
    pub closed spec fn slots(&self, key: K) -> Set<usize> {
        if self.places@.contains_key(key) {
            self.buckets@[self.places@[key] as int]@
        } else {
            Set::empty()
        }
    }

    /// Every key has a bucket of its own.
    #[verifier::type_invariant]
    spec fn placed(self) -> bool {
        &&& forall|key: K| #[trigger]
            self.places@.contains_key(key) ==> self.places@[key] < self.buckets.len()
        &&& forall|key: K, other: K|
            #[trigger] self.places@.contains_key(key) && #[trigger] self.places@.contains_key(
                other,
            ) && key != other ==> self.places@[key] != self.places@[other]
    }
}

impl<K: Hash + Eq> EvictMap<K> {
    /// Hands out the smallest integer that is not in use under `value`, and
    /// marks it as in use. The other keys keep what they have.
    pub fn add(&mut self, value: K) -> (number: usize)
        requires
            obeys_key_model::<K>(),
        ensures
            is_next_slot(old(self)@[value], number),
            number == next_slot(old(self)@[value]),
            final(self)@ == old(self)@.insert(value, after_allocate(old(self)@[value])),
            forall|other: K| other != value ==> final(self)@[other] == old(self)@[other],
    {
        broadcast use vstd::std_specs::hash::group_hash_axioms;

        proof {
            use_type_invariant(&*self);
        }
        let mut this = EvictMap::default();
        core::mem::swap(&mut this, self);
        let EvictMap { mut places, mut buckets } = this;
        let known = match places.get(&value) {
            Some(place) => Some(*place),
            None => None,
        };
        let place = match known {
            Some(place) => place,
            None => {
                let place = buckets.len();
                buckets.push(Bucket::default());
                places.insert(value, place);
                place
            },
        };
        let number = buckets[place].add_one();
        *self = EvictMap { places, buckets };
        proof {
            assert(self@ =~= old(self)@.insert(value, after_allocate(old(self)@[value])));
        }
        number
    }

    /// Hands `number` back for `value`. Returns `false`, and changes
    /// nothing, when `number` is not in use under `value`; that covers a key
    /// that was never asked for. The other keys keep what they have.
    pub fn remove(&mut self, value: &K, number: usize) -> (done: bool)
        requires
            obeys_key_model::<K>(),
        ensures
            done == release_succeeds(old(self)@[*value], number),
            final(self)@ == old(self)@.insert(*value, after_release(old(self)@[*value], number)),
            !done ==> final(self)@ == old(self)@,
            forall|other: K| other != *value ==> final(self)@[other] == old(self)@[other],
    {
        broadcast use vstd::std_specs::hash::group_hash_axioms;

        proof {
            use_type_invariant(&*self);
        }
        let mut this = EvictMap::default();
        core::mem::swap(&mut this, self);
        let EvictMap { places, mut buckets } = this;
        let known = match places.get(value) {
            Some(place) => Some(*place),
            None => None,
        };
        let done = match known {
            Some(place) => buckets[place].remove(number).is_some(),
            None => false,
        };
        *self = EvictMap { places, buckets };
        proof {
            let before = old(self)@[*value];
            if !done {
                assert(after_release(before, number) =~= before);
                assert(self@ =~= old(self)@);
            }
            assert(self@ =~= old(self)@.insert(*value, after_release(before, number)));
        }
        done
    }
}

impl<K> Default for EvictMap<K> {
    /// A registry in which no key has an integer in use.
    fn default() -> (registry: Self)
        ensures
            forall|key: K| #[trigger] registry@[key] == Set::<usize>::empty(),
    {
        EvictMap { places: HashMap::new(), buckets: Vec::new() }
    }
}

} // verus!
