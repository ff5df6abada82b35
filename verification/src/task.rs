//! Tasks and their identifiers.

use crossbeam_queue::ArrayQueue;
use vstd::prelude::*;

pub mod executor;
pub mod keyboard;
pub mod simple_executor;

verus! {

/// The bounded queue of crossbeam_queue that holds task identifiers and
/// scancodes.
#[verifier::external_type_specification]
#[verifier::external_body]
#[verifier::reject_recursive_types(T)]
pub struct ExArrayQueue<T>(ArrayQueue<T>);

/// The numbers that a queue holds, the one to leave first at the front.
pub uninterp spec fn queue_items(queue: ArrayQueue<u64>) -> Seq<u64>;

/// The capacity that a queue was made with.
pub uninterp spec fn queue_capacity(queue: ArrayQueue<u64>) -> nat;

/// Calls `ArrayQueue::new` of crossbeam_queue, which panics on a capacity of
/// zero and allocates the buffer at once: the new queue is empty and has the
/// capacity asked for.
#[verifier::external_body]
pub(crate) fn new_queue(capacity: usize) -> (queue: ArrayQueue<u64>)
    requires
        0 < capacity <= 0xffff,
    ensures
        queue_items(queue) == Seq::<u64>::empty(),
        queue_capacity(queue) == capacity,
{
    ArrayQueue::new(capacity)
}

/// Calls `ArrayQueue::push` of crossbeam_queue: the number goes to the back
/// of the queue, unless the queue is full, which leaves it unchanged; the
/// result tells whether the number went in.
#[verifier::external_body]
pub(crate) fn queue_push(queue: &mut ArrayQueue<u64>, item: u64) -> (pushed: bool)
    ensures
        queue_capacity(*final(queue)) == queue_capacity(*old(queue)),
        pushed == (queue_items(*old(queue)).len() < queue_capacity(*old(queue))),
        queue_items(*final(queue)) == if pushed {
            queue_items(*old(queue)).push(item)
        } else {
            queue_items(*old(queue))
        },
{
    queue.push(item).is_ok()
}

/// Calls `ArrayQueue::pop` of crossbeam_queue: the number at the front
/// leaves the queue and is returned; an empty queue gives `None`.
#[verifier::external_body]
pub(crate) fn queue_pop(queue: &mut ArrayQueue<u64>) -> (item: Option<u64>)
    ensures
        queue_capacity(*final(queue)) == queue_capacity(*old(queue)),
        item == if queue_items(*old(queue)).len() > 0 {
            Some(queue_items(*old(queue))[0])
        } else {
            None
        },
        queue_items(*final(queue)) == if queue_items(*old(queue)).len() > 0 {
            queue_items(*old(queue)).drop_first()
        } else {
            queue_items(*old(queue))
        },
{
    queue.pop().ok()
}

/// Calls `ArrayQueue::is_empty` of crossbeam_queue.
#[verifier::external_body]
pub(crate) fn queue_is_empty(queue: &ArrayQueue<u64>) -> (empty: bool)
    ensures
        empty == (queue_items(*queue).len() == 0),
{
    queue.is_empty()
}

/// Calls `ArrayQueue::is_full` of crossbeam_queue.
#[verifier::external_body]
pub(crate) fn queue_is_full(queue: &ArrayQueue<u64>) -> (full: bool)
    ensures
        full == (queue_items(*queue).len() >= queue_capacity(*queue)),
{
    queue.is_full()
}

/// The number that names a task.
#[derive(Debug, Clone, Copy, PartialEq, Eq, Structural)]
pub struct TaskId(pub u64);

impl TaskId {
    /// Takes the next identifier from the counter `next_id` and moves the
    /// counter on by one. The counter starts again at zero after its last value.
    pub fn new(next_id: &mut u64) -> (id: Self)
        ensures
            id == TaskId(*old(next_id)),
            *final(next_id) == if *old(next_id) == u64::MAX {
                0
            } else {
                (*old(next_id) + 1) as u64
            },
    {
        let id = *next_id;
        *next_id = id.wrapping_add(1);
        TaskId(id)
    }
}

/// Two identifiers taken from one counter differ, whatever was taken in
/// between, as long as the counter has not run through all its values: the
/// one taken `later` steps after the first is that much larger.
pub proof fn lemma_task_ids_unique(first: u64, later: int)
    requires
        0 < later,
        first + later <= u64::MAX,
    ensures
        TaskId(first) != TaskId((first + later) as u64),
{
}

/// Whether a computation has finished, and with what.
#[derive(Debug, PartialEq, Eq)]
pub enum Poll<T> {
    Ready(T),
    Pending,
}

/// A unit of work for an executor: a future and the identifier that names it.
/// `F` is the type of the pinned future; the executors move it and never look
/// inside it.
pub struct Task<F> {
    pub id: TaskId,
    pub future: F,
}

impl<F> Task<F> {
    /// Wraps `future` in a task with a fresh identifier from `next_id`.
    pub fn new(future: F, next_id: &mut u64) -> (task: Task<F>)
        ensures
            task.id == TaskId(*old(next_id)),
            task.future == future,
            *final(next_id) == if *old(next_id) == u64::MAX {
                0
            } else {
                (*old(next_id) + 1) as u64
            },
    {
        Task { id: TaskId::new(next_id), future }
    }
}

} // verus!
