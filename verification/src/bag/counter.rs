//! Counting how often each value was seen.
use core::hash::Hash;
use std::collections::HashMap;
use vstd::multiset::Multiset;
use vstd::prelude::*;
use vstd::std_specs::hash::obeys_key_model;

verus! {

/// How often each value was seen.
///
/// The view of a counter is the multiset of the values that were put in.
#[derive(Debug)]
pub struct Counter<T>(HashMap<T, usize>);

impl<T> View for Counter<T> {
    type V = Multiset<T>;

    closed spec fn view(&self) -> Multiset<T> {
        Multiset::from_map(self.counts())
    }
}

impl<T> Counter<T> {
    /// The counts that the map holds.
    spec fn counts(&self) -> Map<T, nat> {
        Map::new(|value: T| self.0@.contains_key(value), |value: T| self.0@[value] as nat)
    }

    /// The count of a value in the view is the count that the map holds for
    /// it, or zero where it holds none.
    proof fn lemma_count(&self, value: T)
        ensures
            self@.count(value) == if self.0@.contains_key(value) {
                self.0@[value] as nat
            } else {
                0
            },
    {
        broadcast use vstd::std_specs::hash::group_hash_axioms;
        broadcast use vstd::multiset::group_multiset_axioms;

        assert(self.counts().dom() =~= self.0@.dom());
        assert(self.0@.dom().finite());
    }

}

impl<T: Hash + Eq> Counter<T> {
    /// How often `value` was seen.
    pub fn get(&self, value: &T) -> (count: usize)
        requires
            obeys_key_model::<T>(),
        ensures
            count == self@.count(*value),
    {
        broadcast use vstd::std_specs::hash::group_hash_axioms;

        proof {
            self.lemma_count(*value);
        }
        match self.0.get(value) {
            Some(count) => *count,
            None => 0,
        }
    }

    /// Counts one more of `value`.
    fn count_one(&mut self, value: T)
        requires
            obeys_key_model::<T>(),
            old(self)@.count(value) < usize::MAX,
        ensures
            final(self)@ == old(self)@.insert(value),
    {
        broadcast use vstd::std_specs::hash::group_hash_axioms;
        broadcast use vstd::multiset::group_multiset_axioms;

        proof {
            old(self).lemma_count(value);
        }
        let count = self.0.entry(value).or_insert(0);
        *count += 1;
        proof {
            assert forall|other: T| self@.count(other) == old(self)@.insert(value).count(other) by {
                self.lemma_count(other);
                old(self).lemma_count(other);
            }
            assert(self@ =~= old(self)@.insert(value));
        }
    }

    /// Counts the values, each as often as it occurs.
    pub fn extend(&mut self, values: Vec<T>)
        requires
            obeys_key_model::<T>(),
            old(self)@.len() + values.len() <= usize::MAX,
        ensures
            final(self)@ == old(self)@.add(values@.to_multiset()),
    {
        broadcast use vstd::seq_lib::group_to_multiset_ensures;
        broadcast use vstd::multiset::group_multiset_axioms;

        proof {
            assert(values@.take(0) =~= Seq::<T>::empty());
            assert(self@ =~= old(self)@.add(values@.take(0).to_multiset()));
        }
        for value in it: values
            invariant
                    obeys_key_model::<T>(),
                it.seq() == values@,
                old(self)@.len() + values.len() <= usize::MAX,
                self@ == old(self)@.add(values@.take(it.index() as int).to_multiset()),
        {
            let ghost seen = values@.take(it.index() as int);
            let ghost before = self@;
            proof {
                assert(values@.take(it.index() + 1) =~= seen.push(value));
                broadcast use vstd::multiset::group_multiset_axioms;

                vstd::seq_lib::to_multiset_len(seen);
                assert(before.len() == old(self)@.len() + seen.len());
                assert(before.count(value) <= before.len());
            }
            self.count_one(value);
            proof {
                broadcast use vstd::multiset::group_multiset_axioms;

                vstd::seq_lib::to_multiset_build(seen, value);
                assert(before.insert(value) =~= old(self)@.add(seen.push(value).to_multiset()));
            }
        }
        proof {
            assert(values@.take(values.len() as int) =~= values@);
        }
    }

    /// The counter of the values.
    pub fn from_values(values: Vec<T>) -> (counter: Counter<T>)
        requires
            obeys_key_model::<T>(),
        ensures
            counter@ == values@.to_multiset(),
    {
        broadcast use vstd::multiset::group_multiset_axioms;

        let mut counter = Counter::default();
        counter.extend(values);
        proof {
            assert(counter@ =~= values@.to_multiset());
        }
        counter
    }
}

impl<T> Default for Counter<T> {
    /// A counter that has seen nothing.
    fn default() -> (counter: Counter<T>)
        ensures
            counter@ == Multiset::<T>::empty(),
    {
        broadcast use vstd::multiset::group_multiset_axioms;

        let counter = Counter(HashMap::new());
        proof {
            assert forall|value: T| counter@.count(value) == 0 by {
                counter.lemma_count(value);
            }
            assert(counter@ =~= Multiset::<T>::empty());
        }
        counter
    }
}

} // verus!
