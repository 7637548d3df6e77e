//! A binary min-heap of integers.
//!
//! The heap lives in a `Vec`: the children of position `i` sit at `2 * i + 1`
//! and `2 * i + 2`, and no child is smaller than its parent. Its view is the
//! multiset of the integers it holds.
use vstd::multiset::Multiset;
use vstd::prelude::*;

verus! {

/// The position above `i` in the tree that the vector encodes.
spec fn parent(i: int) -> int {
    (i - 1) / 2
}

/// No item is smaller than the one above it.
spec fn heap_ordered(s: Seq<usize>) -> bool {
    forall|j: int| 0 < j < s.len() ==> s[parent(j)] <= #[trigger] s[j]
}

/// Heap order on every edge but the one that enters `hole` from above; what
/// hangs below `hole` is still no smaller than what stands above it.
spec fn ordered_but_above(s: Seq<usize>, hole: int) -> bool {
    &&& forall|j: int| 0 < j < s.len() && j != hole ==> s[parent(j)] <= #[trigger] s[j]
    &&& forall|j: int|
        0 < j < s.len() && parent(j) == hole && hole > 0 ==> s[parent(hole)] <= #[trigger] s[j]
}

/// Heap order on every edge but those that leave `hole` downwards; what hangs
/// below `hole` is still no smaller than what stands above it.
spec fn ordered_but_below(s: Seq<usize>, hole: int) -> bool {
    &&& forall|j: int|
        0 < j < s.len() && parent(j) != hole ==> s[parent(j)] <= #[trigger] s[j]
    &&& forall|j: int|
        0 < j < s.len() && parent(j) == hole && hole > 0 ==> s[parent(hole)] <= #[trigger] s[j]
}

/// `m` occurs in `items` and nothing in `items` is smaller.
pub open spec fn is_minimum(items: Multiset<usize>, m: usize) -> bool {
    &&& items.count(m) > 0
    &&& forall|x: usize| items.count(x) > 0 ==> m <= x
}

/// In a heap-ordered sequence the first item is the smallest.
proof fn lemma_root_is_least(s: Seq<usize>, j: int)
    requires
        heap_ordered(s),
        0 <= j < s.len(),
    ensures
        s[0] <= s[j],
    decreases j,
{
    if j > 0 {
        lemma_root_is_least(s, parent(j));
    }
}

/// The first item of a non-empty heap-ordered sequence is the minimum of its
/// multiset.
proof fn lemma_root_is_minimum(s: Seq<usize>)
    requires
        heap_ordered(s),
        s.len() > 0,
    ensures
        is_minimum(s.to_multiset(), s[0]),
{
    broadcast use vstd::seq_lib::group_to_multiset_ensures;

    assert(s.contains(s[0]));
    assert forall|x: usize| s.to_multiset().count(x) > 0 implies s[0] <= x by {
        assert(s.contains(x));
        let j = choose|j: int| 0 <= j < s.len() && s[j] == x;
        lemma_root_is_least(s, j);
    }
}

/// Exchanging two items keeps the multiset.
proof fn lemma_exchange_keeps_items(s: Seq<usize>, i: int, j: int)
    requires
        0 <= i < s.len(),
        0 <= j < s.len(),
    ensures
        s.update(i, s[j]).update(j, s[i]).to_multiset() == s.to_multiset(),
{
    broadcast use vstd::seq_lib::group_to_multiset_ensures;
    broadcast use vstd::multiset::group_multiset_axioms;

    let t = s.update(i, s[j]);
    assert(t.to_multiset() == s.to_multiset().insert(s[j]).remove(s[i]));
    assert(t.update(j, s[i]).to_multiset() == t.to_multiset().insert(s[i]).remove(t[j]));
    assert(s.to_multiset().count(s[i]) > 0) by {
        assert(s.contains(s[i]));
    }
    assert(s.to_multiset().count(s[j]) > 0) by {
        assert(s.contains(s[j]));
    }
    assert(t.update(j, s[i]).to_multiset() =~= s.to_multiset());
}

/// Taking the last item off and writing it over the first takes one copy of
/// the first item out of the multiset.
proof fn lemma_replace_root_items(s: Seq<usize>)
    requires
        s.len() > 1,
    ensures
        s.drop_last().update(0, s.last()).to_multiset() == s.to_multiset().remove(s[0]),
{
    broadcast use vstd::seq_lib::group_to_multiset_ensures;
    broadcast use vstd::multiset::group_multiset_axioms;

    let t = s.drop_last();
    assert(t =~= s.remove(s.len() - 1));
    assert(t.to_multiset() == s.to_multiset().remove(s.last()));
    assert(s.to_multiset().count(s.last()) > 0) by {
        assert(s.contains(s.last()));
    }
    assert(s.to_multiset().count(s[0]) > 0) by {
        assert(s.contains(s[0]));
    }
    assert(t.update(0, s.last()).to_multiset() == t.to_multiset().insert(s.last()).remove(t[0]));
    assert(t.update(0, s.last()).to_multiset() =~= s.to_multiset().remove(s[0]));
}

/// A pool of integers that hands its smallest member out first.
#[derive(Debug)]
pub struct MinHeap {
    data: Vec<usize>,
}

impl View for MinHeap {
    type V = Multiset<usize>;

    closed spec fn view(&self) -> Multiset<usize> {
        self.data@.to_multiset()
    }
}

impl MinHeap {
    /// Every heap keeps its vector heap-ordered.
    #[verifier::type_invariant]
    spec fn ordered(self) -> bool {
        heap_ordered(self.data@)
    }

    /// Puts `value` into the heap. Copies of a value already present are kept.
    pub fn push(&mut self, value: usize)
        ensures
            final(self)@ == old(self)@.insert(value),
    {
        proof {
            use_type_invariant(&*self);
        }
        let mut data: Vec<usize> = Vec::new();
        core::mem::swap(&mut data, &mut self.data);
        data.push(value);
        proof {
            broadcast use vstd::seq_lib::group_to_multiset_ensures;

        }
        let mut i: usize = data.len() - 1;
        while i > 0 && data[(i - 1) / 2] > data[i]
            invariant
                i < data.len(),
                data@.to_multiset() == old(self)@.insert(value),
                ordered_but_above(data@, i as int),
            decreases i,
        {
            let p: usize = (i - 1) / 2;
            let above: usize = data[p];
            let below: usize = data[i];
            proof {
                lemma_exchange_keeps_items(data@, p as int, i as int);
            }
            data[p] = below;
            data[i] = above;
            i = p;
        }
        self.data = data;
    }

    /// Takes the smallest integer out of the heap, or returns `None` when the
    /// heap is empty.
    pub fn pop(&mut self) -> (least: Option<usize>)
        ensures
            match least {
                Some(m) => is_minimum(old(self)@, m) && final(self)@ == old(self)@.remove(m),
                None => old(self)@.len() == 0 && final(self)@ == old(self)@,
            },
    {
        proof {
            use_type_invariant(&*self);
            broadcast use vstd::seq_lib::group_to_multiset_ensures;

        }
        let n: usize = self.data.len();
        if n == 0 {
            return None;
        }
        let mut data: Vec<usize> = Vec::new();
        core::mem::swap(&mut data, &mut self.data);
        let ghost before = data@;
        let top: usize = data[0];
        proof {
            lemma_root_is_minimum(data@);
        }
        let last: usize = data.pop().unwrap();
        if n == 1 {
            proof {
                assert(data@ =~= before.remove(0));
            }
            self.data = data;
            return Some(top);
        }
        proof {
            lemma_replace_root_items(before);
        }
        data[0] = last;
        let len: usize = n - 1;
        let mut i: usize = 0;
        loop
            invariant
                len == data.len(),
                i < len,
                data@.to_multiset() == old(self)@.remove(top),
                ordered_but_below(data@, i as int),
            ensures
                heap_ordered(data@),
                data@.to_multiset() == old(self)@.remove(top),
            decreases len - i,
        {
            if i >= len / 2 {
                break ;
            }
            let left: usize = 2 * i + 1;
            let right: usize = left + 1;
            let child: usize = if right < len && data[right] < data[left] {
                right
            } else {
                left
            };
            if data[i] <= data[child] {
                break ;
            }
            let above: usize = data[i];
            let below: usize = data[child];
            proof {
                lemma_exchange_keeps_items(data@, i as int, child as int);
            }
            data[i] = below;
            data[child] = above;
            i = child;
        }
        self.data = data;
        Some(top)
    }
}

impl Default for MinHeap {
    /// An empty heap.
    fn default() -> (heap: Self)
        ensures
            heap@ == Multiset::<usize>::empty(),
    {
        let heap = MinHeap { data: Vec::new() };
        proof {
            broadcast use vstd::seq_lib::group_to_multiset_ensures;
            broadcast use vstd::multiset::group_multiset_axioms;

            assert(heap.data@.to_multiset().len() == 0);
            assert(heap.data@.to_multiset() =~= Multiset::<usize>::empty());
        }
        heap
    }
}

} // verus!
