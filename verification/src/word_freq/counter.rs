//! A counter of words that hands them out by their counts.
use priority_queue::PriorityQueue;
use vstd::prelude::*;

verus! {

/// The queue of an outside crate that holds each item once, with a
/// priority, and gives the items out by their priorities. Nothing of its
/// inside is visible here.
#[verifier::external_type_specification]
#[verifier::external_body]
#[verifier::reject_recursive_types(I)]
#[verifier::reject_recursive_types(P)]
#[verifier::reject_recursive_types(H)]
pub struct ExPriorityQueue<I, P, H>(PriorityQueue<I, P, H>);

/// How often each word was counted.
pub type Counts = Map<Seq<char>, usize>;

/// The priority of each item of the queue.
pub uninterp spec fn queue_priorities(queue: PriorityQueue<String, usize>) -> Counts;

/// No word counted.
pub open spec fn no_counts() -> Counts {
    Map::empty()
}

/// The count of `word`, or zero where it has none.
pub open spec fn count_of(counts: Counts, word: Seq<char>) -> nat {
    if counts.contains_key(word) {
        counts[word] as nat
    } else {
        0
    }
}

/// The counts with one more of `word`.
pub open spec fn with_word(counts: Counts, word: Seq<char>) -> Counts {
    counts.insert(word, (count_of(counts, word) + 1) as usize)
}

/// The counts of the words.
pub open spec fn tally(words: Seq<String>) -> Counts
    decreases words.len(),
{
    if words.len() == 0 {
        no_counts()
    } else {
        with_word(tally(words.drop_last()), words.last()@)
    }
}

/// Whether the pairs are the words of `counts`, each once and with its
/// count, the higher counts first. Words of one count come in any order.
pub open spec fn sorted_by_count(pairs: Seq<(String, usize)>, counts: Counts) -> bool {
    &&& forall|i: int|
        0 <= i < pairs.len() ==> counts.contains_key(#[trigger] pairs[i].0@) && counts[pairs[i].0@]
            == pairs[i].1
    &&& forall|word: Seq<char>|
        counts.contains_key(word) ==> exists|i: int|
            0 <= i < pairs.len() && #[trigger] pairs[i].0@ == word
    &&& forall|i: int, j: int|
        0 <= i < j < pairs.len() ==> #[trigger] pairs[i].0@ != #[trigger] pairs[j].0@
    &&& forall|i: int, j: int| 0 <= i <= j < pairs.len() ==> pairs[i].1 >= pairs[j].1
}

/// No word is counted more often than there are words.
pub proof fn lemma_tally_is_bounded(words: Seq<String>, word: Seq<char>)
    requires
        words.len() <= usize::MAX,
    ensures
        count_of(tally(words), word) <= words.len(),
    decreases words.len(),
{
    if words.len() > 0 {
        lemma_tally_is_bounded(words.drop_last(), word);
    }
}

/// Counts one more.
pub fn bump(count: &mut usize)
    requires
        *old(count) < usize::MAX,
    ensures
        *final(count) == *old(count) + 1,
{
    *count += 1;
}

/// `PriorityQueue::new` makes a queue without items.
#[verifier::external_body]
fn queue_new() -> (queue: PriorityQueue<String, usize>)
    ensures
        queue_priorities(queue) == no_counts(),
{
    PriorityQueue::new()
}

/// `PriorityQueue::change_priority_by` looks the item up and, where the
/// queue holds it, lets the closure change its priority, here by `bump`. It
/// tells whether the queue holds the item. No other item changes.
#[verifier::external_body]
fn queue_bump(queue: &mut PriorityQueue<String, usize>, item: &String) -> (found: bool)
    requires
        count_of(queue_priorities(*old(queue)), item@) < usize::MAX,
    ensures
        found == queue_priorities(*old(queue)).contains_key(item@),
        queue_priorities(*final(queue)) == if found {
            with_word(queue_priorities(*old(queue)), item@)
        } else {
            queue_priorities(*old(queue))
        },
{
    queue.change_priority_by(item, |count| bump(count))
}

/// `PriorityQueue::push` puts the item in with the priority, or gives the
/// priority to the item where the queue holds it already. It returns the
/// priority that the item had.
#[verifier::external_body]
fn queue_push(queue: &mut PriorityQueue<String, usize>, item: String, priority: usize) -> (had:
    Option<usize>)
    ensures
        queue_priorities(*final(queue)) == queue_priorities(*old(queue)).insert(item@, priority),
        had == if queue_priorities(*old(queue)).contains_key(item@) {
            Some(queue_priorities(*old(queue))[item@])
        } else {
            None
        },
{
    queue.push(item, priority)
}

/// `PriorityQueue::into_sorted_iter` gives every item out once, with its
/// priority, the highest priority first.
#[verifier::external_body]
fn queue_into_sorted(queue: PriorityQueue<String, usize>) -> (pairs: Vec<(String, usize)>)
    ensures
        sorted_by_count(pairs@, queue_priorities(queue)),
{
    queue.into_sorted_iter().collect()
}

/// The words that were seen, each with the number of times it was seen.
///
/// The view of a counter is the count of each word.
#[derive(Debug)]
pub struct SortedCounter(pub PriorityQueue<String, usize>);

impl View for SortedCounter {
    type V = Counts;

    open spec fn view(&self) -> Counts {
        queue_priorities(self.0)
    }
}

impl SortedCounter {
    /// Counts the words.
    pub fn from_values(values: Vec<String>) -> (counter: SortedCounter)
        ensures
            counter@ == tally(values@),
    {
        let ghost words = values@;
        let mut counter = queue_new();
        proof {
            assert(words.take(0) =~= Seq::<String>::empty());
            assert(words.len() == values.len());
        }
        for item in it: values
            invariant
                it.seq() == words,
                words.len() <= usize::MAX,
                queue_priorities(counter) == tally(words.take(it.index() as int)),
        {
            proof {
                let seen = words.take(it.index() as int);
                lemma_tally_is_bounded(seen, item@);
                assert(words.take(it.index() + 1).drop_last() =~= seen);
            }
            let found = queue_bump(&mut counter, &item);
            if !found {
                queue_push(&mut counter, item, 1);
            }
        }
        proof {
            assert(words.take(words.len() as int) =~= words);
        }
        SortedCounter(counter)
    }

    /// The words with their counts, the most frequent first.
    pub fn into_sorted(self) -> (pairs: Vec<(String, usize)>)
        ensures
            sorted_by_count(pairs@, self@),
    {
        queue_into_sorted(self.0)
    }
}

} // verus!
