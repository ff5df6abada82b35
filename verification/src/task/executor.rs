//! The bookkeeping of the executor that polls a task only when it was woken.

use crate::task::{
    new_queue, queue_capacity, queue_is_empty, queue_is_full, queue_items, queue_pop, queue_push,
    Poll, Task, TaskId,
};
use crossbeam_queue::ArrayQueue;
use std::collections::BTreeMap;
use vstd::prelude::*;

verus! {

/// The number of task identifiers that the queue of an executor can hold.
pub const TASK_QUEUE_CAPACITY: usize = 100;

/// What wakes a task: it holds the identifier of the task and puts it into
/// the task queue of the executor. It holds neither the task nor its future.
#[derive(Debug, Clone, Copy, PartialEq, Eq, Structural)]
pub struct TaskWaker {
    pub task_id: TaskId,
}

impl TaskWaker {
    pub fn new(task_id: TaskId) -> (waker: Self)
        ensures
            waker == (TaskWaker { task_id }),
    {
        TaskWaker { task_id }
    }

    /// Puts the identifier of the task at the back of `task_queue`.
    fn wake_task(&self, task_queue: &mut ArrayQueue<u64>)
        requires
            queue_items(*old(task_queue)).len() < queue_capacity(*old(task_queue)),
        ensures
            queue_capacity(*final(task_queue)) == queue_capacity(*old(task_queue)),
            queue_items(*final(task_queue)) == queue_items(*old(task_queue)).push(
                self.task_id.0,
            ),
    {
        let pushed = queue_push(task_queue, self.task_id.0);
        assert(pushed);
    }
}

/// What the executor does when it has polled every task that was ready.
#[derive(Debug, Clone, Copy, PartialEq, Eq, Structural)]
pub enum IdleAction {
    /// Enable interrupts and halt the CPU in one instruction.
    EnableAndHalt,
    /// Enable interrupts and go on: a task was woken in the meantime.
    Enable,
}

/// A task that is ready to be polled, and the waker to poll it with.
pub struct ReadyTask<F> {
    pub task: Task<F>,
    pub waker: TaskWaker,
}

/// What the main loop of the executor does next.
pub enum RunStep<F> {
    /// Poll the task that is handed out, and hand it back with the outcome.
    PollTask(ReadyTask<F>),
    /// No task is ready: disable interrupts and go to sleep if idle.
    SleepIfIdle,
}

/// What an executor stands for: its tasks by identifier, the identifiers that
/// wait to be polled, the wakers it has made, and the identifier of the task
/// that is out to be polled.
pub struct ExecutorView<F> {
    pub tasks: Map<u64, Task<F>>,
    pub queue: Seq<u64>,
    pub capacity: nat,
    pub wakers: Map<u64, TaskWaker>,
    pub polling: Option<u64>,
}

/// A task is alive while the executor holds it or has it out to be polled.
pub open spec fn is_alive<F>(v: ExecutorView<F>, id: u64) -> bool {
    v.tasks.contains_key(id) || v.polling == Some(id)
}

/// The invariant of an executor: each task is kept under its own identifier,
/// each waker belongs to a task that is alive and wakes that task, the task
/// that is out to be polled is not in the map, and the queue is within its
/// capacity.
pub open spec fn executor_wf<F>(v: ExecutorView<F>) -> bool {
    &&& v.capacity == TASK_QUEUE_CAPACITY
    &&& v.queue.len() <= v.capacity
    &&& forall|id: u64| #[trigger] v.tasks.contains_key(id) ==> v.tasks[id].id == TaskId(id)
    &&& forall|id: u64| #[trigger]
        v.wakers.contains_key(id) ==> is_alive(v, id) && v.wakers[id] == (TaskWaker {
            task_id: TaskId(id),
        })
    &&& v.polling matches Some(id) ==> !v.tasks.contains_key(id)
}

/// Index of the first identifier at or after `from` in the queue that names a
/// task of the executor, or the length of the queue where none does.
pub open spec fn first_ready_from(queue: Seq<u64>, tasks: Set<u64>, from: int) -> int
    decreases queue.len() - from,
{
    if from < 0 || from >= queue.len() {
        queue.len() as int
    } else if tasks.contains(queue[from]) {
        from
    } else {
        first_ready_from(queue, tasks, from + 1)
    }
}

/// Index of the first identifier in the queue that names a task.
pub open spec fn first_ready(queue: Seq<u64>, tasks: Set<u64>) -> int {
    first_ready_from(queue, tasks, 0)
}

/// `first_ready_from` is the least index at or after `from` that names a task.
pub proof fn lemma_first_ready_from(queue: Seq<u64>, tasks: Set<u64>, from: int)
    requires
        0 <= from <= queue.len(),
    ensures
        from <= first_ready_from(queue, tasks, from) <= queue.len(),
        first_ready_from(queue, tasks, from) < queue.len() ==> tasks.contains(
            queue[first_ready_from(queue, tasks, from)],
        ),
        forall|j: int|
            from <= j < first_ready_from(queue, tasks, from) ==> !tasks.contains(
                #[trigger] queue[j],
            ),
    decreases queue.len() - from,
{
    if from < queue.len() && !tasks.contains(queue[from]) {
        lemma_first_ready_from(queue, tasks, from + 1);
    }
}

/// The executor after `spawn`.
pub open spec fn after_spawn<F>(v: ExecutorView<F>, task: Task<F>) -> ExecutorView<F> {
    ExecutorView { tasks: v.tasks.insert(task.id.0, task), queue: v.queue.push(task.id.0), ..v }
}

/// The executor after `run_ready_tasks`: the queue has lost every identifier
/// up to the first that names a task; that task has left the map and is out
/// to be polled; a waker for it is in the cache.
pub open spec fn after_run_ready_tasks<F>(v: ExecutorView<F>) -> ExecutorView<F> {
    let index = first_ready(v.queue, v.tasks.dom());
    if index < v.queue.len() {
        let id = v.queue[index];
        ExecutorView {
            tasks: v.tasks.remove(id),
            queue: v.queue.skip(index + 1),
            wakers: v.wakers.insert(id, TaskWaker { task_id: TaskId(id) }),
            polling: Some(id),
            ..v
        }
    } else {
        ExecutorView { queue: Seq::empty(), ..v }
    }
}

/// The task that `run_ready_tasks` hands out.
pub open spec fn ready_task<F>(v: ExecutorView<F>) -> Option<ReadyTask<F>> {
    let index = first_ready(v.queue, v.tasks.dom());
    if index < v.queue.len() {
        let id = v.queue[index];
        Some(ReadyTask { task: v.tasks[id], waker: TaskWaker { task_id: TaskId(id) } })
    } else {
        None
    }
}

/// The executor after the task that was out has been polled: a finished task
/// is gone, and its waker with it; a pending task is back in the map.
pub open spec fn after_task_polled<F>(v: ExecutorView<F>, task: Task<F>, poll: Poll<()>)
    -> ExecutorView<F> {
    match poll {
        Poll::Ready(()) => ExecutorView {
            wakers: v.wakers.remove(task.id.0),
            polling: None,
            ..v
        },
        Poll::Pending => ExecutorView {
            tasks: v.tasks.insert(task.id.0, task),
            polling: None,
            ..v
        },
    }
}

/// The executor after the task that the last turn of the main loop handed
/// out, if any, has been taken back.
pub open spec fn after_polled<F>(v: ExecutorView<F>, polled: Option<(Task<F>, Poll<()>)>)
    -> ExecutorView<F> {
    match polled {
        Some((task, poll)) => after_task_polled(v, task, poll),
        None => v,
    }
}

/// The executor after a waker has woken its task.
pub open spec fn after_wake<F>(v: ExecutorView<F>, waker: TaskWaker) -> ExecutorView<F> {
    ExecutorView { queue: v.queue.push(waker.task_id.0), ..v }
}

/// A task that was woken is polled: while its identifier waits in the queue
/// and the task is in the map, `run_ready_tasks` hands out a task, and it is
/// either that task or another one in front of it, which leaves the task in
/// the map and its identifier in the queue, nearer to the front.
pub proof fn lemma_woken_task_is_polled<F>(v: ExecutorView<F>, id: u64, position: int)
    requires
        v.tasks.contains_key(id),
        0 <= position < v.queue.len(),
        v.queue[position] == id,
    ensures
        ready_task(v) is Some,
        ({
            let index = first_ready(v.queue, v.tasks.dom());
            &&& 0 <= index <= position
            &&& v.queue[index] == id ==> ready_task(v).unwrap().task == v.tasks[id]
            &&& v.queue[index] != id ==> {
                &&& index < position
                &&& after_run_ready_tasks(v).queue[position - index - 1] == id
                &&& after_run_ready_tasks(v).queue.len() == v.queue.len() - index - 1
                &&& after_run_ready_tasks(v).tasks.contains_key(id)
            }
        }),
{
    lemma_first_ready_from(v.queue, v.tasks.dom(), 0);
    let index = first_ready(v.queue, v.tasks.dom());
    if index > position {
        assert(!v.tasks.dom().contains(v.queue[position]));
    }
}

/// Polling one task does not lose another: a task in the map stays there
/// when another task comes back from being polled, and the queue is
/// untouched.
pub proof fn lemma_other_task_stays<F>(v: ExecutorView<F>, task: Task<F>, poll: Poll<()>, id: u64)
    requires
        v.tasks.contains_key(id),
    ensures
        after_task_polled(v, task, poll).tasks.contains_key(id),
        after_task_polled(v, task, poll).queue == v.queue,
{
}

/// An executor that polls a task only when the task was woken. The tasks are
/// kept by identifier; a waker puts the identifier of its task into a bounded
/// queue, from which the executor takes the tasks to poll.
pub struct Executor<F> {
    tasks: BTreeMap<u64, Task<F>>,
    task_queue: ArrayQueue<u64>,
    waker_cache: BTreeMap<u64, TaskWaker>,
    polling: Option<u64>,
}

impl<F> View for Executor<F> {
    type V = ExecutorView<F>;

    closed spec fn view(&self) -> ExecutorView<F> {
        ExecutorView {
            tasks: self.tasks@,
            queue: queue_items(self.task_queue),
            capacity: queue_capacity(self.task_queue),
            wakers: self.waker_cache@,
            polling: self.polling,
        }
    }
}

impl<F> Executor<F> {
    pub open spec fn wf(&self) -> bool {
        executor_wf(self@)
    }

    /// Creates an executor without tasks.
    pub fn new() -> (executor: Self)
        ensures
            executor.wf(),
            executor@ == (ExecutorView::<F> {
                tasks: Map::empty(),
                queue: Seq::empty(),
                capacity: TASK_QUEUE_CAPACITY as nat,
                wakers: Map::empty(),
                polling: None,
            }),
    {
        Executor {
            tasks: BTreeMap::new(),
            task_queue: new_queue(TASK_QUEUE_CAPACITY),
            waker_cache: BTreeMap::new(),
            polling: None,
        }
    }

    /// Tells whether the executor has a task with this identifier.
    pub fn has_task(&self, id: TaskId) -> (alive: bool)
        ensures
            alive == is_alive(self@, id.0),
    {
        broadcast use vstd::std_specs::btree::group_btree_axioms;

        self.tasks.contains_key(&id.0) || self.polling == Some(id.0)
    }

    /// Tells whether the task queue is full.
    pub fn queue_is_full(&self) -> (full: bool)
        ensures
            full == (self@.queue.len() >= self@.capacity),
    {
        queue_is_full(&self.task_queue)
    }

    /// Tells whether a task is out to be polled.
    pub fn is_polling(&self) -> (polling: bool)
        ensures
            polling == self@.polling.is_some(),
    {
        self.polling.is_some()
    }

    /// Takes `task` into the executor and wakes it at once.
    pub fn spawn(&mut self, task: Task<F>)
        requires
            old(self).wf(),
            !is_alive(old(self)@, task.id.0),
            old(self)@.queue.len() < old(self)@.capacity,
        ensures
            final(self).wf(),
            final(self)@ == after_spawn(old(self)@, task),
    {
        broadcast use vstd::std_specs::btree::group_btree_axioms;

        let task_id = task.id;
        let previous = self.tasks.insert(task_id.0, task);
        assert(previous is None);
        let pushed = queue_push(&mut self.task_queue, task_id.0);
        assert(pushed);
    }

    /// Takes identifiers from the task queue up to the first that names a
    /// task of the executor, and hands that task out to be polled, with its
    /// waker, which is made and cached where the task had none. An
    /// identifier without a task is a wake-up that came after its task had
    /// finished, and is dropped. `None` once the queue is empty.
    pub fn run_ready_tasks(&mut self) -> (ready: Option<ReadyTask<F>>)
        requires
            old(self).wf(),
            old(self)@.polling is None,
        ensures
            final(self).wf(),
            ready == ready_task(old(self)@),
            final(self)@ == after_run_ready_tasks(old(self)@),
    {
        broadcast use vstd::std_specs::btree::group_btree_axioms;

        let ghost start = self@;
        assert(start == old(self)@);
        let ghost mut taken: int = 0;
        proof {
            assert(start.queue.skip(0) =~= start.queue);
        }
        loop
            invariant
                self.wf(),
                start == old(self)@,
                start.polling is None,
                self@.polling is None,
                self@.tasks == start.tasks,
                self@.wakers == start.wakers,
                self@.capacity == start.capacity,
                0 <= taken <= start.queue.len(),
                self@.queue == start.queue.skip(taken),
                first_ready(start.queue, start.tasks.dom()) == first_ready_from(
                    start.queue,
                    start.tasks.dom(),
                    taken,
                ),
            decreases self@.queue.len(),
        {
            let task_id = match queue_pop(&mut self.task_queue) {
                Some(task_id) => task_id,
                None => {
                    proof {
                        assert(self@.queue =~= Seq::<u64>::empty());
                        lemma_first_ready_from(start.queue, start.tasks.dom(), taken);
                    }
                    return None;
                },
            };
            proof {
                assert(start.queue.skip(taken)[0] == start.queue[taken]);
                assert(start.queue.skip(taken).drop_first() =~= start.queue.skip(taken + 1));
            }
            let task = match self.tasks.remove(&task_id) {
                Some(task) => task,
                None => {
                    // task no longer exists
                    proof {
                        taken = taken + 1;
                    }
                    continue ;
                },
            };
            let waker = match self.waker_cache.get(&task_id) {
                Some(waker) => *waker,
                None => TaskWaker::new(TaskId(task_id)),
            };
            self.waker_cache.insert(task_id, waker);
            self.polling = Some(task_id);
            proof {
                assert(self@.wakers =~= start.wakers.insert(
                    task_id,
                    TaskWaker { task_id: TaskId(task_id) },
                ));
            }
            return Some(ReadyTask { task, waker });
        }
    }

    /// Takes back the task that was out to be polled, with what polling it
    /// gave: a finished task is dropped together with its waker, a pending
    /// task goes back into the map and waits to be woken.
    pub fn task_polled(&mut self, task: Task<F>, poll: Poll<()>)
        requires
            old(self).wf(),
            old(self)@.polling == Some(task.id.0),
        ensures
            final(self).wf(),
            final(self)@ == after_task_polled(old(self)@, task, poll),
    {
        broadcast use vstd::std_specs::btree::group_btree_axioms;

        let task_id = task.id;
        match poll {
            Poll::Ready(()) => {
                // task done -> remove its cached waker
                self.waker_cache.remove(&task_id.0);
            },
            Poll::Pending => {
                self.tasks.insert(task_id.0, task);
            },
        }
        self.polling = None;
    }

    /// One turn of the main loop. `polled` is the task that the last turn
    /// handed out, with what polling it gave; it is taken back first. Then the
    /// next task that is ready is handed out, or, where none is, the caller is
    /// sent to sleep.
    pub fn run(&mut self, polled: Option<(Task<F>, Poll<()>)>) -> (step: RunStep<F>)
        requires
            old(self).wf(),
            match polled {
                Some((task, _)) => old(self)@.polling == Some(task.id.0),
                None => old(self)@.polling is None,
            },
        ensures
            final(self).wf(),
            final(self)@ == after_run_ready_tasks(after_polled(old(self)@, polled)),
            step == match ready_task(after_polled(old(self)@, polled)) {
                Some(ready) => RunStep::PollTask(ready),
                None => RunStep::SleepIfIdle,
            },
    {
        match polled {
            Some((task, poll)) => self.task_polled(task, poll),
            None => {},
        }
        match self.run_ready_tasks() {
            Some(ready) => RunStep::PollTask(ready),
            None => RunStep::SleepIfIdle,
        }
    }

    /// Wakes the task of `waker`: its identifier goes to the back of the
    /// task queue.
    pub fn wake(&mut self, waker: &TaskWaker)
        requires
            old(self).wf(),
            old(self)@.queue.len() < old(self)@.capacity,
        ensures
            final(self).wf(),
            final(self)@ == after_wake(old(self)@, *waker),
    {
        waker.wake_task(&mut self.task_queue);
    }

    /// Decides, with interrupts disabled, how to go to sleep: the CPU may halt
    /// only while no task waits to be polled.
    pub fn sleep_if_idle(&self) -> (action: IdleAction)
        ensures
            action == if self@.queue.len() == 0 {
                IdleAction::EnableAndHalt
            } else {
                IdleAction::Enable
            },
    {
        if queue_is_empty(&self.task_queue) {
            IdleAction::EnableAndHalt
        } else {
            IdleAction::Enable
        }
    }
}

} // verus!
