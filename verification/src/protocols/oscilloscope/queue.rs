//! The queue of stereo samples, `crossbeam_queue::ArrayQueue`.
//!
//! A sample is a pair of the left and the right channel, each as the bit pattern of a
//! 32-bit floating point number. The contracts speak of a queue that nobody else uses
//! meanwhile, which is why the methods that change it take it by `&mut`.

use crossbeam_queue::ArrayQueue;

use vstd::prelude::*;

verus! {

/// `crossbeam_queue::ArrayQueue`: a bounded queue, first in, first out.
#[verifier::external_type_specification]
#[verifier::external_body]
#[verifier::reject_recursive_types(T)]
pub struct ExArrayQueue<T>(ArrayQueue<T>);

/// The samples in a queue, the oldest first.
pub uninterp spec fn contents(q: ArrayQueue<(u32, u32)>) -> Seq<(u32, u32)>;

/// How many samples a queue holds at most, which is what it was made for.
pub uninterp spec fn limit(q: ArrayQueue<(u32, u32)>) -> usize;

/// `ArrayQueue::new`: an empty queue for `capacity` samples. It panics on a capacity
/// of zero, and on one whose slots, of sixteen bytes, cannot be allocated.
#[verifier::external_body]
pub(crate) fn new_queue(capacity: usize) -> (q: ArrayQueue<(u32, u32)>)
    requires
        0 < capacity <= 0x0400_0000,
    ensures
        contents(q) == Seq::<(u32, u32)>::empty(),
        limit(q) == capacity,
{
    ArrayQueue::new(capacity)
}

/// `ArrayQueue::push`: appends a sample, or gives it back where the queue is full.
#[verifier::external_body]
pub(crate) fn push(q: &mut ArrayQueue<(u32, u32)>, sample: (u32, u32)) -> (r: Result<(), (u32, u32)>)
    ensures
        limit(*final(q)) == limit(*old(q)),
        r is Ok <==> contents(*old(q)).len() < limit(*old(q)),
        r is Ok ==> contents(*final(q)) == contents(*old(q)).push(sample),
        r matches Err(back) ==> back == sample && contents(*final(q)) == contents(*old(q)),
{
    q.push(sample)
}

/// `ArrayQueue::pop`: takes the oldest sample, if there is one.
#[verifier::external_body]
pub(crate) fn pop(q: &mut ArrayQueue<(u32, u32)>) -> (r: Option<(u32, u32)>)
    ensures
        limit(*final(q)) == limit(*old(q)),
        r == if contents(*old(q)).len() > 0 {
            Some(contents(*old(q))[0])
        } else {
            None
        },
        contents(*final(q)) == if contents(*old(q)).len() > 0 {
            contents(*old(q)).skip(1)
        } else {
            contents(*old(q))
        },
{
    q.pop()
}

/// `ArrayQueue::capacity`: how many samples the queue holds at most.
#[verifier::external_body]
pub(crate) fn capacity(q: &ArrayQueue<(u32, u32)>) -> (r: usize)
    ensures
        r == limit(*q),
{
    q.capacity()
}

/// `ArrayQueue::len`: how many samples are in the queue, never more than it holds.
#[verifier::external_body]
pub(crate) fn len(q: &ArrayQueue<(u32, u32)>) -> (r: usize)
    ensures
        r == contents(*q).len(),
        r <= limit(*q),
{
    q.len()
}

} // verus!
