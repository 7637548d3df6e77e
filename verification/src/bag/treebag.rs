//! A map of collections that keeps its keys in their order.
use std::collections::BTreeMap;
use vstd::laws_cmp::obeys_cmp;
use vstd::prelude::*;

verus! {

/// What a map of buckets holds: under each key its items, in order.
pub open spec fn buckets_of<K, V>(map: Map<K, Vec<V>>) -> Map<K, Seq<V>> {
    Map::new(|key: K| map.contains_key(key), |key: K| map[key]@)
}

/// The items under `key` with `value` put last; a key without items gets
/// its first.
pub open spec fn with_value<K, V>(buckets: Map<K, Seq<V>>, key: K, value: V) -> Map<K, Seq<V>> {
    if buckets.contains_key(key) {
        buckets.insert(key, buckets[key].push(value))
    } else {
        buckets.insert(key, seq![value])
    }
}

/// What a bag holds after the pairs are put in, one by one.
pub open spec fn with_values<K, V>(buckets: Map<K, Seq<V>>, pairs: Seq<(K, V)>) -> Map<
    K,
    Seq<V>,
>
    decreases pairs.len(),
{
    if pairs.len() == 0 {
        buckets
    } else {
        with_value(with_values(buckets, pairs.drop_last()), pairs.last().0, pairs.last().1)
    }
}

/// The first `count` of the pairs.
pub open spec fn first_pairs<K, V>(pairs: Seq<(K, V)>, count: int) -> Seq<(K, V)> {
    pairs.take(count)
}

/// The first pairs, one more of them, and all of them.
pub proof fn lemma_first_pairs<K, V>(pairs: Seq<(K, V)>, count: int)
    ensures
        first_pairs(pairs, 0) == Seq::<(K, V)>::empty(),
        first_pairs(pairs, pairs.len() as int) == pairs,
        0 <= count < pairs.len() ==> first_pairs(pairs, count + 1).drop_last() == first_pairs(
            pairs,
            count,
        ) && first_pairs(pairs, count + 1).last() == pairs[count],
{
    assert(first_pairs(pairs, 0) =~= Seq::<(K, V)>::empty());
    assert(first_pairs(pairs, pairs.len() as int) =~= pairs);
    if 0 <= count < pairs.len() {
        assert(first_pairs(pairs, count + 1).drop_last() =~= first_pairs(pairs, count));
    }
}

/// Ordered map of collections.
///
/// The view of a bag gives, for each key that has any, the items that were
/// put in under it, in the order in which they came.
#[derive(Debug)]
pub struct Bag<K, V>(BTreeMap<K, Vec<V>>);

impl<K, V> View for Bag<K, V> {
    type V = Map<K, Seq<V>>;

    closed spec fn view(&self) -> Map<K, Seq<V>> {
        buckets_of(self.0@)
    }
}

impl<K, V> Bag<K, V> {
    /// Consumes the bag and returns the backing map.
    pub fn into_inner(self) -> (inner: BTreeMap<K, Vec<V>>)
        ensures
            buckets_of(inner@) == self@,
    {
        self.0
    }

    /// Pushes `value` at the end of the bucket `key`. If the bucket does
    /// not exist, it is created.
    pub fn insert(&mut self, key: K, value: V) where K: Ord
        requires
            obeys_cmp::<K>(),
        ensures
            final(self)@ == with_value(old(self)@, key, value),
    {
        broadcast use vstd::std_specs::btree::group_btree_axioms;

        let mut items = match self.0.remove(&key) {
            Some(items) => items,
            None => Vec::new(),
        };
        items.push(value);
        self.0.insert(key, items);
        proof {
            assert(seq![value] =~= Seq::<V>::empty().push(value));
            assert(self@ =~= with_value(old(self)@, key, value));
        }
    }

    /// Puts the pairs in, one by one.
    pub fn extend(&mut self, key_value_pairs: Vec<(K, V)>) where K: Ord
        requires
            obeys_cmp::<K>(),
        ensures
            final(self)@ == with_values(old(self)@, key_value_pairs@),
    {
        let ghost pairs = key_value_pairs@;
        proof {
            lemma_first_pairs(pairs, 0);
        }
        for pair in it: key_value_pairs
            invariant
                obeys_cmp::<K>(),
                it.seq() == pairs,
                self@ == with_values(old(self)@, first_pairs(pairs, it.index())),
        {
            proof {
                lemma_first_pairs(pairs, it.index());
            }
            self.insert(pair.0, pair.1);
        }
        proof {
            lemma_first_pairs(pairs, 0);
        }
    }

    /// The bag of the pairs.
    pub fn from_pairs(key_value_pairs: Vec<(K, V)>) -> (bag: Bag<K, V>) where K: Ord
        requires
            obeys_cmp::<K>(),
        ensures
            bag@ == with_values(Map::empty(), key_value_pairs@),
    {
        let mut bag = Bag::default();
        bag.extend(key_value_pairs);
        bag
    }
}

impl<K, V> Default for Bag<K, V> {
    /// A bag without keys.
    fn default() -> (bag: Bag<K, V>)
        ensures
            bag@ == Map::<K, Seq<V>>::empty(),
    {
        let bag = Bag(BTreeMap::new());
        proof {
            assert(bag@ =~= Map::<K, Seq<V>>::empty());
        }
        bag
    }
}

} // verus!
