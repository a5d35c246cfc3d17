//! The lock-free queues of a reactor, from crossbeam: the queue of logical
//! threads scheduled onto it, the channel of futures sent to it, and the
//! channel of tasks spawned on its core. Their items are the identifiers of
//! the threads and of the futures.
use vstd::prelude::*;

use crossbeam::channel::{Receiver, Sender};
use crossbeam::queue::SegQueue;

verus! {

#[verifier::external_type_specification]
#[verifier::external_body]
#[verifier::reject_recursive_types(T)]
pub struct ExSegQueue<T>(SegQueue<T>);

/// What a queue of thread identifiers holds, head first.
pub uninterp spec fn queued(q: SegQueue<u64>) -> Seq<u64>;

/// Relies on `SegQueue::new`: a new queue is empty.
#[verifier::external_body]
pub(crate) fn queue_new() -> (q: SegQueue<u64>)
    ensures
        queued(q) == Seq::<u64>::empty(),
{
    SegQueue::new()
}

/// Relies on `SegQueue::push_mut`: pushes `v` at the tail.
#[verifier::external_body]
pub(crate) fn queue_push(q: &mut SegQueue<u64>, v: u64)
    ensures
        queued(*final(q)) == queued(*old(q)).push(v),
{
    q.push_mut(v)
}

/// Relies on `SegQueue::pop_mut`: takes the head, `None` when empty.
#[verifier::external_body]
pub(crate) fn queue_pop(q: &mut SegQueue<u64>) -> (r: Option<u64>)
    ensures
        match r {
            Some(x) => {
                &&& queued(*old(q)).len() > 0
                &&& x == queued(*old(q))[0]
                &&& queued(*final(q)) == queued(*old(q)).drop_first()
            },
            None => {
                &&& queued(*old(q)).len() == 0
                &&& queued(*final(q)) == queued(*old(q))
            },
        },
{
    q.pop_mut()
}

/// An unbounded crossbeam channel of task identifiers whose two ends are
/// held together; the owning reactor drains the receiving end.
#[derive(Debug)]
#[verifier::external_body]
pub struct TaskChannel {
    sx: Sender<u64>,
    rx: Receiver<u64>,
}

/// What the channel holds, oldest first.
pub uninterp spec fn channel_contents(i: TaskChannel) -> Seq<u64>;

/// Relies on `crossbeam::channel::unbounded`: a new channel is empty.
#[verifier::external_body]
pub(crate) fn channel_new() -> (i: TaskChannel)
    ensures
        channel_contents(i) == Seq::<u64>::empty(),
{
    let (sx, rx) = crossbeam::channel::unbounded();
    TaskChannel { sx, rx }
}

/// Relies on `Sender::send`: on an unbounded channel whose receiver is
/// alive the message is appended.
#[verifier::external_body]
pub(crate) fn channel_send(i: &mut TaskChannel, v: u64)
    ensures
        channel_contents(*final(i)) == channel_contents(*old(i)).push(v),
{
    let _ = i.sx.send(v);
}

/// Relies on `Receiver::try_recv`: takes the oldest message, an error (here
/// `None`) when there is none.
#[verifier::external_body]
pub(crate) fn channel_try_recv(i: &mut TaskChannel) -> (r: Option<u64>)
    ensures
        match r {
            Some(x) => {
                &&& channel_contents(*old(i)).len() > 0
                &&& x == channel_contents(*old(i))[0]
                &&& channel_contents(*final(i)) == channel_contents(*old(i)).drop_first()
            },
            None => {
                &&& channel_contents(*old(i)).len() == 0
                &&& channel_contents(*final(i)) == channel_contents(*old(i))
            },
        },
{
    i.rx.try_recv().ok()
}

/// Relies on `gettid::gettid`: the identifier of the calling OS thread.
#[verifier::external_body]
pub(crate) fn current_tid() -> u64 {
    gettid::gettid()
}

} // verus!
