//! Bounded sample histories.
//!
//! A history keeps the most recent samples of one metric, newest first. It
//! is filled once per tick and read by the renderer between ticks.

use crate::deque::{
    deque_as_slice, deque_items, deque_len, deque_new, deque_pop_back, deque_push_front,
};
use slice_deque::SliceDeque;
use vstd::math::min;
use vstd::prelude::*;
use vstd::slice::slice_to_vec;

verus! {

/// The number of samples each history of the monitor keeps.
pub const BUFFER_CAPACITY: usize = 1000;

/// A history of samples, newest first, that never grows past its capacity.
pub struct HistoryBuffer {
    items: SliceDeque<u64>,
    capacity: usize,
}

/// What a history holds after `sample` is recorded in one that held `items`:
/// the sample in front, and the oldest one gone if that made it too long.
pub open spec fn pushed(items: Seq<u64>, capacity: nat, sample: u64) -> Seq<u64> {
    let grown = seq![sample] + items;
    if grown.len() > capacity {
        grown.drop_last()
    } else {
        grown
    }
}

/// What a history that held `items` holds after every sample of `pushes` was
/// recorded in turn, `pushes[0]` first.
pub open spec fn pushed_all(items: Seq<u64>, capacity: nat, pushes: Seq<u64>) -> Seq<u64>
    decreases pushes.len(),
{
    if pushes.len() == 0 {
        items
    } else {
        pushed(pushed_all(items, capacity, pushes.drop_last()), capacity, pushes.last())
    }
}

/// However many samples are recorded, the history never holds more than its
/// capacity, and what it holds is the most recent samples, newest first,
/// followed by as many of the earlier contents as still fit.
pub proof fn lemma_pushes_keep_most_recent(items: Seq<u64>, capacity: nat, pushes: Seq<u64>)
    requires
        items.len() <= capacity,
    ensures
        pushed_all(items, capacity, pushes).len() == min(
            (pushes.len() + items.len()) as int,
            capacity as int,
        ),
        pushed_all(items, capacity, pushes) == (pushes.reverse() + items).take(
            min((pushes.len() + items.len()) as int, capacity as int),
        ),
    decreases pushes.len(),
{
    if pushes.len() == 0 {
        assert(pushes.reverse() + items =~= items);
        assert(items.take(items.len() as int) =~= items);
    } else {
        let earlier = pushes.drop_last();
        lemma_pushes_keep_most_recent(items, capacity, earlier);
        let before = pushed_all(items, capacity, earlier);
        let after = pushed(before, capacity, pushes.last());
        let all = pushes.reverse() + items;
        assert(all =~= seq![pushes.last()] + (earlier.reverse() + items));
        assert(after =~= all.take(min((pushes.len() + items.len()) as int, capacity as int)));
    }
}

/// Starting from an empty history, the sample at position `i` is the one
/// recorded `i` pushes before the last.
pub proof fn lemma_pushes_from_empty(capacity: nat, pushes: Seq<u64>, i: int)
    requires
        0 <= i < min(pushes.len() as int, capacity as int),
    ensures
        pushed_all(Seq::empty(), capacity, pushes).len() == min(
            pushes.len() as int,
            capacity as int,
        ),
        pushed_all(Seq::empty(), capacity, pushes)[i] == pushes[pushes.len() - 1 - i],
{
    lemma_pushes_keep_most_recent(Seq::empty(), capacity, pushes);
}

impl View for HistoryBuffer {
    type V = Seq<u64>;

    /// The samples held, newest first.
    closed spec fn view(&self) -> Seq<u64> {
        deque_items(self.items)
    }
}

impl HistoryBuffer {
    /// The history holds no more samples than its capacity.
    pub closed spec fn wf(&self) -> bool {
        deque_items(self.items).len() <= self.capacity < usize::MAX
    }

    /// The largest number of samples this history keeps.
    pub closed spec fn capacity(&self) -> nat {
        self.capacity as nat
    }

    /// A well-formed history never holds more than its capacity.
    pub proof fn lemma_bounded(&self)
        requires
            self.wf(),
        ensures
            self@.len() <= self.capacity(),
    {
    }

    /// An empty history that keeps at most `capacity` samples.
    pub fn with_capacity(capacity: usize) -> (h: HistoryBuffer)
        requires
            capacity < usize::MAX,
        ensures
            h.wf(),
            h@ == Seq::<u64>::empty(),
            h.capacity() == capacity,
    {
        HistoryBuffer { items: deque_new(), capacity }
    }

    /// An empty history of the monitor's standard capacity.
    pub fn new() -> (h: HistoryBuffer)
        ensures
            h.wf(),
            h@ == Seq::<u64>::empty(),
            h.capacity() == BUFFER_CAPACITY,
    {
        HistoryBuffer::with_capacity(BUFFER_CAPACITY)
    }

    /// Records `sample` as the newest; the oldest sample leaves when the
    /// history would otherwise pass its capacity.
    pub fn push_front(&mut self, sample: u64)
        requires
            old(self).wf(),
        ensures
            final(self).wf(),
            final(self)@ == pushed(old(self)@, old(self).capacity(), sample),
            final(self).capacity() == old(self).capacity(),
    {
        deque_push_front(&mut self.items, sample);
        if deque_len(&self.items) > self.capacity {
            deque_pop_back(&mut self.items);
        }
    }

    /// The number of samples held.
    pub fn len(&self) -> (n: usize)
        requires
            self.wf(),
        ensures
            n == self@.len(),
            n <= self.capacity(),
    {
        deque_len(&self.items)
    }

    /// The largest number of samples this history keeps.
    pub fn limit(&self) -> (n: usize)
        ensures
            n == self.capacity(),
    {
        self.capacity
    }

    /// The samples held, newest first.
    pub fn to_vec(&self) -> (v: Vec<u64>)
        ensures
            v@ == self@,
    {
        slice_to_vec(deque_as_slice(&self.items))
    }
}

} // verus!
