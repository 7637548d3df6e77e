//! The slots of one key: which integers are in use, and which were handed
//! back and wait to be used again.
pub mod minheap;

use crate::evictmap::bucket::minheap::{is_minimum, MinHeap};
use std::collections::BTreeSet;
use vstd::multiset::Multiset;
use vstd::prelude::*;

verus! {

/// `number` is the smallest integer that is not in `taken`.
pub open spec fn is_next_slot(taken: Set<usize>, number: usize) -> bool {
    &&& !taken.contains(number)
    &&& forall|i: usize| i < number ==> taken.contains(i)
}

/// The smallest integer that is not in `taken`.
pub open spec fn next_slot(taken: Set<usize>) -> usize {
    choose|number: usize| is_next_slot(taken, number)
}

/// The slots in use after one more is handed out.
pub open spec fn after_allocate(taken: Set<usize>) -> Set<usize> {
    taken.insert(next_slot(taken))
}

/// Whether handing `number` back is accepted: it has to be in use.
pub open spec fn release_succeeds(taken: Set<usize>, number: usize) -> bool {
    taken.contains(number)
}

/// The slots in use after `number` is handed back. Where the release is
/// refused this is `taken` itself.
pub open spec fn after_release(taken: Set<usize>, number: usize) -> Set<usize> {
    taken.remove(number)
}

/// The integers that `count` allocations in a row return, in their order.
pub open spec fn allocated_in_a_row(taken: Set<usize>, count: nat) -> Seq<usize>
    decreases count,
{
    if count == 0 {
        Seq::empty()
    } else {
        allocated_in_a_row(taken, (count - 1) as nat).push(
            next_slot(after_allocations(taken, (count - 1) as nat)),
        )
    }
}

/// The slots in use after `count` allocations in a row.
pub open spec fn after_allocations(taken: Set<usize>, count: nat) -> Set<usize>
    decreases count,
{
    if count == 0 {
        taken
    } else {
        after_allocate(after_allocations(taken, (count - 1) as nat))
    }
}

/// The integers below `bound`.
pub open spec fn slots_below(bound: nat) -> Set<usize> {
    Set::new(|i: usize| i < bound)
}

/// The slots in use and the released ones share no integer, no integer was
/// released twice, and together they are the integers below their joint
/// count.
pub open spec fn partition_a_prefix(taken: Set<usize>, free: Multiset<usize>) -> bool {
    &&& forall|x: usize| #[trigger] free.count(x) <= 1
    &&& forall|x: usize| !(#[trigger] taken.contains(x) && free.count(x) > 0)
    &&& forall|x: usize|
        #![trigger taken.contains(x)]
        #![trigger free.count(x)]
        (taken.contains(x) || free.count(x) > 0) <==> x < taken.len() + free.len()
}

/// Taking out an integer that is present: its count and the length go down
/// by one, the other counts stay.
proof fn lemma_take_out(free: Multiset<usize>, number: usize)
    requires
        free.count(number) > 0,
    ensures
        free.remove(number).len() == free.len() - 1,
        free.remove(number).count(number) == free.count(number) - 1,
        forall|x: usize| x != number ==> #[trigger] free.remove(number).count(x) == free.count(x),
{
    broadcast use vstd::multiset::group_multiset_axioms;

    assert(Multiset::singleton(number).subset_of(free));
}

/// Taking out an integer that is absent changes nothing.
proof fn lemma_take_out_absent(free: Multiset<usize>, number: usize)
    requires
        free.count(number) == 0,
    ensures
        free.remove(number) == free,
{
    broadcast use vstd::multiset::group_multiset_axioms;

    assert(free.remove(number) =~= free);
}

/// At most one integer is the next slot of a set.
pub proof fn lemma_next_slot_is_unique(taken: Set<usize>, a: usize, b: usize)
    requires
        is_next_slot(taken, a),
        is_next_slot(taken, b),
    ensures
        a == b,
{
    if a < b {
        assert(taken.contains(a));
    } else if b < a {
        assert(taken.contains(b));
    }
}

/// An integer that is the next slot of a set is what `next_slot` names.
pub proof fn lemma_next_slot_is(taken: Set<usize>, number: usize)
    requires
        is_next_slot(taken, number),
    ensures
        next_slot(taken) == number,
{
    lemma_next_slot_is_unique(taken, number, next_slot(taken));
}

/// The next slot of the integers below `bound` is `bound`, and handing it out
/// gives the integers below `bound + 1`.
pub proof fn lemma_next_slot_of_prefix(bound: nat)
    requires
        bound <= usize::MAX,
    ensures
        is_next_slot(slots_below(bound), bound as usize),
        next_slot(slots_below(bound)) == bound,
        after_allocate(slots_below(bound)) == slots_below(bound + 1),
{
    lemma_next_slot_is(slots_below(bound), bound as usize);
    assert(slots_below(bound).insert(bound as usize) =~= slots_below(bound + 1));
}

/// Where nothing is in use, allocations in a row return 0, 1, 2 and so on,
/// in that order. After `count` of them the integers below `count` are in
/// use, and the next one returns `count`.
pub proof fn lemma_fresh_bucket_counts_up(count: nat)
    requires
        count <= usize::MAX,
    ensures
        allocated_in_a_row(Set::<usize>::empty(), count) == Seq::new(count, |i: int| i as usize),
        after_allocations(Set::<usize>::empty(), count) == slots_below(count),
        next_slot(after_allocations(Set::<usize>::empty(), count)) == count,
    decreases count,
{
    if count == 0 {
        assert(slots_below(0) =~= Set::<usize>::empty());
        assert(allocated_in_a_row(Set::<usize>::empty(), 0) =~= Seq::new(0, |i: int| i as usize));
    } else {
        lemma_fresh_bucket_counts_up((count - 1) as nat);
        lemma_next_slot_of_prefix((count - 1) as nat);
        assert(allocated_in_a_row(Set::<usize>::empty(), count) =~= Seq::new(
            count,
            |i: int| i as usize,
        ));
    }
    lemma_next_slot_of_prefix(count);
}

/// The integer that an allocation returns was not in use before it, and
/// every smaller integer was. What was in use stays in use.
pub proof fn lemma_allocation_is_new(taken: Set<usize>, number: usize)
    requires
        is_next_slot(taken, number),
    ensures
        !taken.contains(number),
        after_allocate(taken).contains(number),
        forall|i: usize| i < number ==> taken.contains(i),
        forall|i: usize| taken.contains(i) ==> after_allocate(taken).contains(i),
{
    lemma_next_slot_is(taken, number);
}

/// Handing back an integer that is not in use is refused and leaves the
/// integers in use as they were.
pub proof fn lemma_release_of_unused_is_refused(taken: Set<usize>, number: usize)
    requires
        !taken.contains(number),
    ensures
        !release_succeeds(taken, number),
        after_release(taken, number) == taken,
{
    assert(taken.remove(number) =~= taken);
}

/// Once `number` was handed back, handing it back again is refused until
/// an allocation returns it.
pub proof fn lemma_second_release_fails(taken: Set<usize>, number: usize)
    ensures
        !release_succeeds(after_release(taken, number), number),
{
}

/// An integer that was handed back is the next one handed out, unless a
/// smaller one is free too.
pub proof fn lemma_released_slot_comes_back(taken: Set<usize>, number: usize)
    requires
        release_succeeds(taken, number),
        forall|i: usize| i < number ==> taken.contains(i),
    ensures
        next_slot(after_release(taken, number)) == number,
{
    lemma_next_slot_is(after_release(taken, number), number);
}

/// The smallest integer of a multiset that holds `witness`.
proof fn lemma_least_present(free: Multiset<usize>, witness: usize) -> (least: usize)
    requires
        free.count(witness) > 0,
    ensures
        is_minimum(free, least),
    decreases witness,
{
    if exists|smaller: usize| smaller < witness && free.count(smaller) > 0 {
        let smaller = choose|smaller: usize| smaller < witness && free.count(smaller) > 0;
        lemma_least_present(free, smaller)
    } else {
        witness
    }
}

/// Where released integers wait, the next slot is the smallest of them.
pub proof fn lemma_next_slot_is_least_released(taken: Set<usize>, free: Multiset<usize>)
    requires
        partition_a_prefix(taken, free),
        free.len() > 0,
    ensures
        is_minimum(free, next_slot(taken)),
{
    broadcast use vstd::multiset::group_multiset_axioms;

    let witness = free.choose();
    let least = lemma_least_present(free, witness);
    assert(least < taken.len() + free.len());
    assert forall|i: usize| i < least implies taken.contains(i) by {
        if free.count(i) > 0 {
            assert(least <= i);
        }
    }
    lemma_next_slot_is(taken, least);
}

/// Where no released integer waits, the next slot is the number of
/// integers in use.
pub proof fn lemma_next_slot_is_count(taken: Set<usize>, free: Multiset<usize>)
    requires
        partition_a_prefix(taken, free),
        free.len() == 0,
        taken.len() <= usize::MAX,
    ensures
        next_slot(taken) == taken.len(),
{
    broadcast use vstd::multiset::group_multiset_axioms;

    assert forall|x: usize| free.count(x) == 0 by {
        if free.count(x) > 0 {
            assert(free.contains(x));
        }
    }
    lemma_next_slot_is(taken, taken.len() as usize);
}

/// The per-key state: the integers in use, and a pool of released ones.
///
/// The view of a bucket is the set of integers in use. What `add_one` and
/// `remove` do and return depends on that set alone.
#[derive(Debug)]
pub struct Bucket {
    allocated: BTreeSet<usize>,
    deallocated: MinHeap,
}

impl View for Bucket {
    type V = Set<usize>;

    closed spec fn view(&self) -> Set<usize> {
        self.allocated@
    }
}

impl Bucket {
    /// The released integers that wait to be used again.
    pub closed spec fn released(&self) -> Multiset<usize> {
        self.deallocated@
    }

    /// Every bucket keeps the integers in use and the released ones apart,
    /// and both together without a gap.
    #[verifier::type_invariant]
    spec fn parted(self) -> bool {
        &&& self.allocated@.finite()
        &&& partition_a_prefix(self.allocated@, self.deallocated@)
    }

    /// Hands out the smallest integer that is not in use, and marks it as in
    /// use. A released integer is taken before a new one.
    pub fn add_one(&mut self) -> (number: usize)
        ensures
            is_next_slot(old(self)@, number),
            number == next_slot(old(self)@),
            final(self)@ == after_allocate(old(self)@),
            final(self).released() == old(self).released().remove(number),
            old(self)@.finite() && final(self)@.finite(),
            partition_a_prefix(old(self)@, old(self).released()),
            partition_a_prefix(final(self)@, final(self).released()),
    {
        broadcast use vstd::std_specs::btree::group_btree_axioms;
        broadcast use vstd::laws_cmp::group_laws_cmp;
        broadcast use vstd::multiset::group_multiset_axioms;

        proof {
            use_type_invariant(&*self);
        }
        let mut this = Bucket::default();
        core::mem::swap(&mut this, self);
        let Bucket { mut allocated, mut deallocated } = this;
        let ghost taken = allocated@;
        let ghost free = deallocated@;
        let number = next_number(&allocated, &mut deallocated);
        allocated.insert(number);
        proof {
            lemma_next_slot_is(taken, number);
            assert(taken.insert(number).len() == taken.len() + 1);
            if free.count(number) > 0 {
                lemma_take_out(free, number);
            } else {
                lemma_take_out_absent(free, number);
            }
            assert(partition_a_prefix(allocated@, deallocated@));
        }
        *self = Bucket { allocated, deallocated };
        number
    }

    /// Hands `number` back. Returns `None`, and changes nothing, when
    /// `number` is not in use.
    pub fn remove(&mut self, number: usize) -> (done: Option<()>)
        ensures
            done.is_some() == release_succeeds(old(self)@, number),
            final(self)@ == after_release(old(self)@, number),
            done.is_some() ==> final(self).released() == old(self).released().insert(number),
            done.is_none() ==> final(self)@ == old(self)@ && final(self).released() == old(
                self,
            ).released(),
            old(self)@.finite() && final(self)@.finite(),
            partition_a_prefix(old(self)@, old(self).released()),
            partition_a_prefix(final(self)@, final(self).released()),
    {
        broadcast use vstd::std_specs::btree::group_btree_axioms;
        broadcast use vstd::laws_cmp::group_laws_cmp;
        broadcast use vstd::multiset::group_multiset_axioms;

        proof {
            use_type_invariant(&*self);
        }
        let mut this = Bucket::default();
        core::mem::swap(&mut this, self);
        let Bucket { mut allocated, mut deallocated } = this;
        let ghost taken = allocated@;
        let ghost free = deallocated@;
        let done = if allocated.remove(&number) {
            deallocated.push(number);
            proof {
                assert(taken.remove(number).len() == taken.len() - 1);
                assert(free.insert(number).len() == free.len() + 1);
                assert(free.count(number) == 0);
                assert(partition_a_prefix(allocated@, deallocated@));
            }
            Some(())
        } else {
            proof {
                assert(allocated@ =~= taken);
            }
            None
        };
        *self = Bucket { allocated, deallocated };
        done
    }
}

/// Picks the next integer to hand out: the smallest released one, which is
/// taken from the pool, or else the number of integers in use.
fn next_number(allocated: &BTreeSet<usize>, deallocated: &mut MinHeap) -> (number: usize)
    requires
        allocated@.finite(),
        partition_a_prefix(allocated@, old(deallocated)@),
    ensures
        is_next_slot(allocated@, number),
        final(deallocated)@ == old(deallocated)@.remove(number),
        old(deallocated)@.count(number) == 0 ==> old(deallocated)@.len() == 0 && number
            == allocated@.len(),
{
    broadcast use vstd::std_specs::btree::group_btree_axioms;
    broadcast use vstd::laws_cmp::group_laws_cmp;
    broadcast use vstd::multiset::group_multiset_axioms;

    let n: usize = allocated.len();
    let ghost free = deallocated@;
    match deallocated.pop() {
        Some(least) => {
            proof {
                assert(free.count(least) > 0);
                assert(least < allocated@.len() + free.len());
                assert forall|i: usize| i < least implies allocated@.contains(i) by {
                    if free.count(i) > 0 {
                        assert(least <= i);
                    }
                }
            }
            least
        },
        None => {
            proof {
                assert forall|x: usize| free.count(x) == 0 by {
                    if free.count(x) > 0 {
                        assert(free.contains(x));
                        assert(free.len() > 0);
                    }
                }
                lemma_take_out_absent(free, n);
            }
            n
        },
    }
}

impl Default for Bucket {
    /// A bucket with no integer in use and none released.
    fn default() -> (bucket: Self)
        ensures
            bucket@ == Set::<usize>::empty(),
            bucket.released() == Multiset::<usize>::empty(),
    {
        broadcast use vstd::multiset::group_multiset_axioms;

        Bucket { allocated: BTreeSet::new(), deallocated: MinHeap::default() }
    }
}

} // verus!
