//! Bag is an ordered map of collections: under each key it gathers the
//! items that were put in with that key, and it keeps the keys in the order
//! in which they were first seen.
use indexmap::IndexMap;
use vstd::prelude::*;

verus! {

/// The map of an outside crate that keeps its entries in the order of
/// their insertion. Nothing of its inside is visible here.
#[verifier::external_type_specification]
#[verifier::external_body]
#[verifier::reject_recursive_types(K)]
#[verifier::reject_recursive_types(V)]
#[verifier::reject_recursive_types(S)]
pub struct ExIndexMap<K, V, S>(IndexMap<K, V, S>);

/// The keys of a bag.
pub type Key = i32;

/// The items of a bag.
pub type Item = String;

/// What a bag holds: its keys in order, each with its items in order.
pub type Buckets = Seq<(Key, Seq<Item>)>;

/// The entries of the map, in its order.
pub uninterp spec fn index_map_entries(map: IndexMap<Key, Vec<Item>>) -> Buckets;

/// No two entries have the same key.
pub open spec fn distinct_keys(buckets: Buckets) -> bool {
    forall|i: int, j: int|
        0 <= i < buckets.len() && 0 <= j < buckets.len() && buckets[i].0 == buckets[j].0 ==> i
            == j
}

/// Whether some entry has the key.
pub open spec fn holds_key(buckets: Buckets, key: Key) -> bool {
    exists|i: int| 0 <= i < buckets.len() && buckets[i].0 == key
}

/// The position of the entry that has the key, where there is one.
pub open spec fn position_of(buckets: Buckets, key: Key) -> int {
    choose|i: int| 0 <= i < buckets.len() && buckets[i].0 == key
}

/// The items under the key, where there are any.
pub open spec fn items_of(buckets: Buckets, key: Key) -> Option<Seq<Item>> {
    if holds_key(buckets, key) {
        Some(buckets[position_of(buckets, key)].1)
    } else {
        None
    }
}

/// What a bag holds after `item` is put in under `key`: the item comes last
/// under its key, and a new key comes last among the keys.
pub open spec fn with_item(buckets: Buckets, key: Key, item: Item) -> Buckets {
    if holds_key(buckets, key) {
        let at = position_of(buckets, key);
        buckets.update(at, (key, buckets[at].1.push(item)))
    } else {
        buckets.push((key, seq![item]))
    }
}

/// What a bag holds after the pairs are put in, one by one.
pub open spec fn with_items(buckets: Buckets, pairs: Seq<(Key, Item)>) -> Buckets
    decreases pairs.len(),
{
    if pairs.len() == 0 {
        buckets
    } else {
        with_item(with_items(buckets, pairs.drop_last()), pairs.last().0, pairs.last().1)
    }
}

/// `IndexMap::new` makes a map without entries.
#[verifier::external_body]
fn index_map_new() -> (map: IndexMap<Key, Vec<Item>>)
    ensures
        index_map_entries(map) == Seq::<(Key, Seq<Item>)>::empty(),
{
    IndexMap::new()
}

/// `IndexMap::len` gives the number of entries.
#[verifier::external_body]
fn index_map_len(map: &IndexMap<Key, Vec<Item>>) -> (len: usize)
    ensures
        len == index_map_entries(*map).len(),
{
    map.len()
}

/// `IndexMap::is_empty` tells whether the map has no entry.
#[verifier::external_body]
fn index_map_is_empty(map: &IndexMap<Key, Vec<Item>>) -> (empty: bool)
    ensures
        empty == (index_map_entries(*map).len() == 0),
{
    map.is_empty()
}

/// `IndexMap::get` gives the value of the entry that has the key, or
/// `None` where no entry has it.
#[verifier::external_body]
fn index_map_get<'a>(map: &'a IndexMap<Key, Vec<Item>>, key: &Key) -> (found: Option<
    &'a Vec<Item>,
>)
    requires
        distinct_keys(index_map_entries(*map)),
    ensures
        match found {
            Some(items) => items_of(index_map_entries(*map), *key) == Some(items@),
            None => items_of(index_map_entries(*map), *key) is None,
        },
{
    map.get(key)
}

/// `IndexMap::get_mut` gives the value of the entry that has the key, to
/// be changed in its place, or `None` where no entry has it. What the
/// caller leaves in the value is what the entry holds afterwards; no other
/// entry changes, nor the order. The call only looks the key up, and never
/// panics.
#[verifier::external_body]
fn index_map_get_mut<'a>(map: &'a mut IndexMap<Key, Vec<Item>>, key: &Key) -> (found: Option<
    &'a mut Vec<Item>,
>)
    requires
        distinct_keys(index_map_entries(*old(map))),
    ensures
        match found {
            Some(items) => {
                let before = index_map_entries(*old(map));
                &&& items_of(before, *key) == Some(items@)
                &&& index_map_entries(*final(map)) == before.update(
                    position_of(before, *key),
                    (*key, final(items)@),
                )
            },
            None => {
                &&& items_of(index_map_entries(*old(map)), *key) is None
                &&& index_map_entries(*final(map)) == index_map_entries(*old(map))
            },
        },
    no_unwind
{
    map.get_mut(key)
}

/// `IndexMap::entry` followed by `Entry::or_default` gives the value of the
/// entry that has the key, to be changed in its place. Where no entry has
/// the key, one with an empty value is first put in, last in the order.
/// What the caller leaves in the value is what the entry holds afterwards;
/// no other entry changes, nor the order.
#[verifier::external_body]
fn index_map_or_default<'a>(map: &'a mut IndexMap<Key, Vec<Item>>, key: Key) -> (items:
    &'a mut Vec<Item>)
    requires
        distinct_keys(index_map_entries(*old(map))),
    ensures
        ({
            let before = index_map_entries(*old(map));
            if holds_key(before, key) {
                &&& items@ == before[position_of(before, key)].1
                &&& index_map_entries(*final(map)) == before.update(
                    position_of(before, key),
                    (key, final(items)@),
                )
            } else {
                &&& items@ == Seq::<Item>::empty()
                &&& index_map_entries(*final(map)) == before.push((key, final(items)@))
            }
        }),
{
    map.entry(key).or_default()
}

/// Ordered map of collections.
///
/// The view of a bag is the sequence of its keys, in the order in which
/// they were first seen, each with the items that were put in under it, in
/// the order in which they came.
#[derive(Debug)]
pub struct Bag(IndexMap<Key, Vec<Item>>);

impl View for Bag {
    type V = Buckets;

    closed spec fn view(&self) -> Buckets {
        index_map_entries(self.0)
    }
}

impl Bag {
    /// No key occurs twice in a bag.
    #[verifier::type_invariant]
    spec fn keyed(self) -> bool {
        distinct_keys(index_map_entries(self.0))
    }

    /// Push `item` at the end of the bucket `key`.
    /// If the bucket doesn't exists, it is created.
    pub fn insert(&mut self, key: Key, item: Item)
        ensures
            final(self)@ == with_item(old(self)@, key, item),
            distinct_keys(final(self)@),
    {
        proof {
            use_type_invariant(&*self);
        }
        let mut map = index_map_new();
        core::mem::swap(&mut map, &mut self.0);
        let items = index_map_or_default(&mut map, key);
        items.push(item);
        proof {
            assert(seq![item] =~= Seq::<Item>::empty().push(item));
        }
        self.0 = map;
    }

    /// Borrows the backing map of the bag.
    pub fn as_inner(&self) -> (inner: &IndexMap<Key, Vec<Item>>)
        ensures
            index_map_entries(*inner) == self@,
    {
        &self.0
    }

    /// Consumes the bag and returns the backing map.
    pub fn into_inner(self) -> (inner: IndexMap<Key, Vec<Item>>)
        ensures
            index_map_entries(inner) == self@,
    {
        self.0
    }

    /// Returns the number of buckets in the bag.
    pub fn len(&self) -> (len: usize)
        ensures
            len == self@.len(),
    {
        index_map_len(&self.0)
    }

    /// Returns `true` if the bag contains no elements.
    pub fn is_empty(&self) -> (empty: bool)
        ensures
            empty == (self@.len() == 0),
    {
        index_map_is_empty(&self.0)
    }

    /// Returns a reference to the bucket corresponding to the key.
    pub fn get(&self, key: &Key) -> (found: Option<&Vec<Item>>)
        ensures
            distinct_keys(self@),
            match found {
                Some(items) => items_of(self@, *key) == Some(items@),
                None => items_of(self@, *key) is None,
            },
    {
        proof {
            use_type_invariant(self);
        }
        index_map_get(&self.0, key)
    }

    /// Returns a mutable reference to the bucket corresponding to the key.
    /// What the caller leaves in the bucket is what the bag holds under the
    /// key afterwards.
    pub fn get_mut(&mut self, key: &Key) -> (found: Option<&mut Vec<Item>>)
        ensures
            match found {
                Some(items) => {
                    &&& items_of(old(self)@, *key) == Some(items@)
                    &&& final(self)@ == old(self)@.update(
                        position_of(old(self)@, *key),
                        (*key, final(items)@),
                    )
                },
                None => items_of(old(self)@, *key) is None && final(self)@ == old(self)@,
            },
    {
        proof {
            use_type_invariant(&*self);
        }
        index_map_get_mut(&mut self.0, key)
    }

    /// Returns a reference to the bucket corresponding to the key, which
    /// has to be present.
    pub fn index(&self, key: &Key) -> (items: &Vec<Item>)
        requires
            holds_key(self@, *key),
        ensures
            items_of(self@, *key) == Some(items@),
    {
        match self.get(key) {
            Some(items) => items,
            None => {
                proof {
                    assert(false);
                }
                unreached()
            },
        }
    }

    /// Puts the pairs in, one by one.
    pub fn extend(&mut self, key_value_pairs: Vec<(Key, Item)>)
        ensures
            final(self)@ == with_items(old(self)@, key_value_pairs@),
    {
        let ghost pairs = key_value_pairs@;
        proof {
            assert(pairs.take(0) =~= Seq::<(Key, Item)>::empty());
        }
        for pair in it: key_value_pairs
            invariant
                it.seq() == pairs,
                self@ == with_items(old(self)@, pairs.take(it.index() as int)),
        {
            proof {
                assert(pairs.take(it.index() + 1).drop_last() =~= pairs.take(it.index() as int));
            }
            self.insert(pair.0, pair.1);
        }
        proof {
            assert(pairs.take(pairs.len() as int) =~= pairs);
        }
    }

    /// The bag of the pairs.
    pub fn from_pairs(key_value_pairs: Vec<(Key, Item)>) -> (bag: Bag)
        ensures
            bag@ == with_items(Seq::empty(), key_value_pairs@),
    {
        let mut bag = Bag::default();
        bag.extend(key_value_pairs);
        bag
    }
}

impl Default for Bag {
    /// A bag without keys.
    fn default() -> (bag: Bag)
        ensures
            bag@ == Seq::<(Key, Seq<Item>)>::empty(),
    {
        Bag(index_map_new())
    }
}

} // verus!
