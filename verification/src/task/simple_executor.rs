//! The bookkeeping of the executor that polls every task in turn.

use crate::task::{Poll, Task};
use std::collections::VecDeque;
use vstd::prelude::*;

verus! {

/// An executor that polls its tasks in turn, whether or not they were woken.
pub struct SimpleExecutor<F> {
    task_queue: VecDeque<Task<F>>,
}

impl<F> View for SimpleExecutor<F> {
    type V = Seq<Task<F>>;

    /// The tasks that wait to be polled, the next one first.
    closed spec fn view(&self) -> Seq<Task<F>> {
        self.task_queue@
    }
}

/// The queue after the task that was just polled is put back: a pending task
/// goes to the back of the queue, a finished one is dropped.
pub open spec fn after_poll<F>(queue: Seq<Task<F>>, polled: Option<(Task<F>, Poll<()>)>) -> Seq<
    Task<F>,
> {
    match polled {
        Some((task, Poll::Pending)) => queue.push(task),
        _ => queue,
    }
}

impl<F> SimpleExecutor<F> {
    pub fn new() -> (executor: SimpleExecutor<F>)
        ensures
            executor@ == Seq::<Task<F>>::empty(),
    {
        SimpleExecutor { task_queue: VecDeque::new() }
    }

    /// Puts `task` at the back of the queue.
    pub fn spawn(&mut self, task: Task<F>)
        ensures
            final(self)@ == old(self)@.push(task),
    {
        self.task_queue.push_back(task)
    }

    /// One turn of the run loop. `polled` is the task that the last turn
    /// handed out, with what polling it gave: a pending task goes to the back
    /// of the queue. The task at the front of the queue is handed out to be
    /// polled next; `None` once no task is left.
    pub fn run(&mut self, polled: Option<(Task<F>, Poll<()>)>) -> (next: Option<Task<F>>)
        ensures
            ({
                let queue = after_poll(old(self)@, polled);
                if queue.len() > 0 {
                    next == Some(queue[0]) && final(self)@ == queue.drop_first()
                } else {
                    next is None && final(self)@ == queue
                }
            }),
    {
        match polled {
            Some((task, Poll::Pending)) => self.task_queue.push_back(task),
            Some((_, Poll::Ready(()))) => {},  // task done
            None => {},
        }
        let next = self.task_queue.pop_front();
        proof {
            let queue = after_poll(old(self)@, polled);
            if queue.len() > 0 {
                assert(self@ =~= queue.drop_first());
            }
        }
        next
    }
}

/// A task that is pending goes behind every task that waits, and is handed
/// out again once those have been taken; a task that is ready is dropped.
pub proof fn lemma_pending_task_comes_back<F>(queue: Seq<Task<F>>, task: Task<F>)
    ensures
        after_poll(queue, Some((task, Poll::Pending))).len() == queue.len() + 1,
        after_poll(queue, Some((task, Poll::Pending)))[queue.len() as int] == task,
        after_poll(queue, Some((task, Poll::Ready(())))) == queue,
{
}

} // verus!
