//! The trusted boundary around `slice_deque::SliceDeque<u64>`.
//!
//! Nothing in this file is proved. Each function calls one method of the
//! deque and states what that method does to the stored items.

use slice_deque::SliceDeque;
use vstd::prelude::*;

verus! {

#[verifier::external_type_specification]
#[verifier::external_body]
#[verifier::reject_recursive_types(T)]
pub struct ExSliceDeque<T>(SliceDeque<T>);

/// The items a deque holds, front first.
pub uninterp spec fn deque_items(d: SliceDeque<u64>) -> Seq<u64>;

/// `SliceDeque::new`: a deque that holds nothing.
#[verifier::external_body]
pub(crate) fn deque_new() -> (d: SliceDeque<u64>)
    ensures
        deque_items(d) == Seq::<u64>::empty(),
{
    SliceDeque::new()
}

/// `SliceDeque::len`: the number of items held.
#[verifier::external_body]
pub(crate) fn deque_len(d: &SliceDeque<u64>) -> (n: usize)
    ensures
        n == deque_items(*d).len(),
{
    d.len()
}

/// `SliceDeque::push_front`: `value` becomes the first item and the others
/// keep their order behind it. The call panics when the length would pass
/// `usize::MAX`, which the precondition excludes, and when the operating
/// system refuses the memory for a larger buffer.
#[verifier::external_body]
pub(crate) fn deque_push_front(d: &mut SliceDeque<u64>, value: u64)
    requires
        deque_items(*old(d)).len() < usize::MAX,
    ensures
        deque_items(*final(d)) == seq![value] + deque_items(*old(d)),
{
    d.push_front(value)
}

/// `SliceDeque::pop_back`: removes and returns the last item, or returns
/// `None` and changes nothing when the deque is empty.
#[verifier::external_body]
pub(crate) fn deque_pop_back(d: &mut SliceDeque<u64>) -> (r: Option<u64>)
    ensures
        deque_items(*old(d)).len() == 0 ==> r is None && deque_items(*final(d)) == deque_items(
            *old(d),
        ),
        deque_items(*old(d)).len() > 0 ==> r == Some(deque_items(*old(d)).last())
            && deque_items(*final(d)) == deque_items(*old(d)).drop_last(),
{
    d.pop_back()
}

/// `SliceDeque::as_slice`: the items as one slice, front first.
#[verifier::external_body]
pub(crate) fn deque_as_slice(d: &SliceDeque<u64>) -> (s: &[u64])
    ensures
        s@ == deque_items(*d),
{
    d.as_slice()
}

} // verus!
