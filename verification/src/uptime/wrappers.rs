//! The outcomes of the polls: all of a period, or the latest few.
use bitvec::vec::BitVec;
use vstd::prelude::*;

verus! {

/// A vector of bits, kept by an outside crate. Nothing of its inside is
/// visible here.
#[verifier::external_body]
#[derive(Debug)]
pub struct Bits {
    bits: BitVec,
}

/// The most bits that a vector of bits can hold.
pub const MAX_BITS: usize = usize::MAX / 8;

/// The bits of the vector, in order.
pub uninterp spec fn bit_vec_bits(bits: Bits) -> Seq<bool>;

/// How many of the bits are set.
pub open spec fn count_set(bits: Seq<bool>) -> nat
    decreases bits.len(),
{
    if bits.len() == 0 {
        0
    } else {
        count_set(bits.drop_last()) + if bits.last() {
            1nat
        } else {
            0nat
        }
    }
}

/// The bits moved by `by` places towards the front: the first `by` bits
/// are lost, and as many cleared bits come in at the end.
pub open spec fn moved_to_front(bits: Seq<bool>, by: int) -> Seq<bool> {
    Seq::new(
        bits.len(),
        |i: int|
            if i + by < bits.len() {
                bits[i + by]
            } else {
                false
            },
    )
}

/// As many set bits as `count` says.
pub open spec fn all_set(count: nat) -> Seq<bool> {
    Seq::new(count, |i: int| true)
}

/// The latest outcomes after one more: the oldest is dropped, the new one
/// comes last.
pub open spec fn rolled(bits: Seq<bool>, value: bool) -> Seq<bool> {
    bits.drop_first().push(value)
}

/// No more bits are set than there are.
pub proof fn lemma_count_set_is_bounded(bits: Seq<bool>)
    ensures
        count_set(bits) <= bits.len(),
    decreases bits.len(),
{
    if bits.len() > 0 {
        lemma_count_set_is_bounded(bits.drop_last());
    }
}

/// `BitVec::new` makes a vector without bits.
#[verifier::external_body]
fn bit_vec_new() -> (bits: Bits)
    ensures
        bit_vec_bits(bits) == Seq::<bool>::empty(),
{
    Bits { bits: BitVec::new() }
}

/// `BitVec::with_capacity` makes a vector without bits, with room for
/// `capacity` of them.
#[verifier::external_body]
fn bit_vec_with_capacity(capacity: usize) -> (bits: Bits)
    requires
        capacity <= MAX_BITS,
    ensures
        bit_vec_bits(bits) == Seq::<bool>::empty(),
{
    Bits { bits: BitVec::with_capacity(capacity) }
}

/// `BitVec::push` appends one bit.
#[verifier::external_body]
fn bit_vec_push(bits: &mut Bits, value: bool)
    requires
        bit_vec_bits(*old(bits)).len() < MAX_BITS,
    ensures
        bit_vec_bits(*final(bits)) == bit_vec_bits(*old(bits)).push(value),
{
    bits.bits.push(value)
}

/// `BitVec::len` gives the number of bits.
#[verifier::external_body]
fn bit_vec_len(bits: &Bits) -> (len: usize)
    ensures
        len == bit_vec_bits(*bits).len(),
        len <= MAX_BITS,
{
    bits.bits.len()
}

/// `BitSlice::count_ones` gives the number of bits that are set.
#[verifier::external_body]
fn bit_vec_count_ones(bits: &Bits) -> (ones: usize)
    ensures
        ones == count_set(bit_vec_bits(*bits)),
{
    bits.bits.count_ones()
}

/// `BitSlice::shift_left` moves the bits by `by` places towards the front
/// and clears the places that come free at the end. The length stays.
#[verifier::external_body]
#[allow(deprecated)]
fn bit_vec_shift_left(bits: &mut Bits, by: usize)
    requires
        by <= bit_vec_bits(*old(bits)).len(),
    ensures
        bit_vec_bits(*final(bits)) == moved_to_front(bit_vec_bits(*old(bits)), by as int),
{
    bits.bits.shift_left(by)
}

/// `BitVec::truncate` keeps the first `len` bits and drops the rest; a
/// vector that is no longer than `len` stays as it is.
#[verifier::external_body]
fn bit_vec_truncate(bits: &mut Bits, len: usize)
    ensures
        bit_vec_bits(*final(bits)) == if len < bit_vec_bits(*old(bits)).len() {
            bit_vec_bits(*old(bits)).take(len as int)
        } else {
            bit_vec_bits(*old(bits))
        },
{
    bits.bits.truncate(len)
}

/// The outcomes of the polls of a period, in order: set for a success.
#[derive(Debug)]
pub struct Stats(Bits);

impl View for Stats {
    type V = Seq<bool>;

    closed spec fn view(&self) -> Seq<bool> {
        bit_vec_bits(self.0)
    }
}

impl Stats {
    /// No outcome yet.
    pub fn new() -> (stats: Stats)
        ensures
            stats@ == Seq::<bool>::empty(),
    {
        Stats(bit_vec_new())
    }

    /// Notes a success.
    pub fn add_success(&mut self)
        requires
            old(self)@.len() < MAX_BITS,
        ensures
            final(self)@ == old(self)@.push(true),
    {
        bit_vec_push(&mut self.0, true)
    }

    /// Notes a failure.
    pub fn add_failure(&mut self)
        requires
            old(self)@.len() < MAX_BITS,
        ensures
            final(self)@ == old(self)@.push(false),
    {
        bit_vec_push(&mut self.0, false)
    }

    /// The number of successes.
    pub fn successes(&self) -> (count: usize)
        ensures
            count == count_set(self@),
            count <= self@.len(),
    {
        proof {
            lemma_count_set_is_bounded(self@);
        }
        bit_vec_count_ones(&self.0)
    }

    /// The number of outcomes.
    pub fn len(&self) -> (len: usize)
        ensures
            len == self@.len(),
    {
        bit_vec_len(&self.0)
    }
}

/// The latest outcomes of the polls, oldest first: set for a success. Their
/// number never changes.
#[derive(Debug)]
pub struct RollingStats(Bits);

impl View for RollingStats {
    type V = Seq<bool>;

    closed spec fn view(&self) -> Seq<bool> {
        bit_vec_bits(self.0)
    }
}

impl RollingStats {
    /// The latest `capacity` outcomes, all of them successes to begin with.
    pub fn with_capacity(capacity: usize) -> (stats: RollingStats)
        requires
            capacity <= MAX_BITS,
        ensures
            stats@ == all_set(capacity as nat),
    {
        let mut list = bit_vec_with_capacity(capacity);
        let mut done: usize = 0;
        while done < capacity
            invariant
                done <= capacity <= MAX_BITS,
                bit_vec_bits(list) == all_set(done as nat),
            decreases capacity - done,
        {
            bit_vec_push(&mut list, true);
            done += 1;
            proof {
                assert(bit_vec_bits(list) =~= all_set(done as nat));
            }
        }
        RollingStats(list)
    }

    /// Notes one more outcome and forgets the oldest.
    pub fn add(&mut self, value: bool)
        requires
            old(self)@.len() > 0,
        ensures
            final(self)@ == rolled(old(self)@, value),
    {
        let len = bit_vec_len(&self.0);
        bit_vec_shift_left(&mut self.0, 1);
        bit_vec_truncate(&mut self.0, len - 1);
        bit_vec_push(&mut self.0, value);
        proof {
            assert(self@ =~= rolled(old(self)@, value));
        }
    }

    /// The number of successes among the latest outcomes.
    pub fn successes(&self) -> (count: usize)
        ensures
            count == count_set(self@),
            count <= self@.len(),
    {
        proof {
            lemma_count_set_is_bounded(self@);
        }
        bit_vec_count_ones(&self.0)
    }

    /// The number of outcomes that are kept.
    pub fn len(&self) -> (len: usize)
        ensures
            len == self@.len(),
    {
        bit_vec_len(&self.0)
    }
}

} // verus!
