use blog_os::task::executor::{Executor, IdleAction, RunStep, TaskWaker, TASK_QUEUE_CAPACITY};
use blog_os::task::keyboard::{
    key_text, keypress_text, print_keypresses, Key, KeyDecoder, ScancodeOutcome, ScancodeQueue,
    ScancodeStream, SCANCODE_QUEUE_CAPACITY,
};
use blog_os::task::simple_executor::SimpleExecutor;
use blog_os::task::{Poll, Task, TaskId};
use pc_keyboard::KeyCode;

#[test]
fn task_ids_count_up() {
    let mut next_id = 0;
    assert_eq!(TaskId::new(&mut next_id), TaskId(0));
    assert_eq!(TaskId::new(&mut next_id), TaskId(1));
    assert_eq!(TaskId::new(&mut next_id), TaskId(2));
    assert_eq!(next_id, 3);
    let mut last = u64::MAX;
    assert_eq!(TaskId::new(&mut last), TaskId(u64::MAX));
    assert_eq!(last, 0);
}

#[test]
fn tasks_get_fresh_ids() {
    let mut next_id = 7;
    let first = Task::new("first", &mut next_id);
    let second = Task::new("second", &mut next_id);
    assert_eq!(first.id, TaskId(7));
    assert_eq!(second.id, TaskId(8));
    assert_ne!(first.id, second.id);
    assert_eq!(first.future, "first");
    assert_eq!(second.future, "second");
}

#[test]
fn simple_executor_polls_in_turn() {
    let mut next_id = 0;
    let mut executor = SimpleExecutor::new();
    assert!(executor.run(None).is_none());
    executor.spawn(Task::new('a', &mut next_id));
    executor.spawn(Task::new('b', &mut next_id));
    let a = executor.run(None).unwrap();
    assert_eq!(a.future, 'a');
    // a is pending: b comes first, a after it
    let b = executor.run(Some((a, Poll::Pending))).unwrap();
    assert_eq!(b.future, 'b');
    let a = executor.run(Some((b, Poll::Ready(())))).unwrap();
    assert_eq!((a.id, a.future), (TaskId(0), 'a'));
    // a alone stays pending and comes back at once
    let a = executor.run(Some((a, Poll::Pending))).unwrap();
    assert_eq!(a.future, 'a');
    assert!(executor.run(Some((a, Poll::Ready(())))).is_none());
    assert!(executor.run(None).is_none());
}

#[test]
fn executor_polls_spawned_tasks_in_the_order_of_their_wake_ups() {
    let mut next_id = 0;
    let mut executor = Executor::new();
    assert_eq!(TASK_QUEUE_CAPACITY, 100);
    assert!(executor.run_ready_tasks().is_none());
    executor.spawn(Task::new("example", &mut next_id));
    executor.spawn(Task::new("keyboard", &mut next_id));
    assert!(executor.has_task(TaskId(0)));
    assert!(executor.has_task(TaskId(1)));
    assert!(!executor.has_task(TaskId(2)));

    let ready = executor.run_ready_tasks().unwrap();
    assert_eq!(ready.task.id, TaskId(0));
    assert_eq!(ready.task.future, "example");
    assert_eq!(ready.waker, TaskWaker::new(TaskId(0)));
    assert!(executor.is_polling());
    assert!(executor.has_task(TaskId(0)));
    executor.task_polled(ready.task, Poll::Ready(()));
    assert!(!executor.is_polling());
    assert!(!executor.has_task(TaskId(0)));

    let ready = executor.run_ready_tasks().unwrap();
    assert_eq!(ready.task.id, TaskId(1));
    let keyboard_waker = ready.waker;
    executor.task_polled(ready.task, Poll::Pending);
    assert!(executor.has_task(TaskId(1)));

    // nothing was woken
    assert!(executor.run_ready_tasks().is_none());
    assert_eq!(executor.sleep_if_idle(), IdleAction::EnableAndHalt);

    // one wake-up, one poll
    executor.wake(&keyboard_waker);
    assert_eq!(executor.sleep_if_idle(), IdleAction::Enable);
    let ready = executor.run_ready_tasks().unwrap();
    assert_eq!((ready.task.id, ready.task.future), (TaskId(1), "keyboard"));
    assert_eq!(ready.waker, keyboard_waker);
    executor.task_polled(ready.task, Poll::Pending);
    assert!(executor.run_ready_tasks().is_none());
}

#[test]
fn executor_polls_once_for_each_wake_up() {
    let mut next_id = 0;
    let mut executor = Executor::new();
    executor.spawn(Task::new((), &mut next_id));
    let ready = executor.run_ready_tasks().unwrap();
    let waker = ready.waker;
    executor.task_polled(ready.task, Poll::Pending);
    executor.wake(&waker);
    executor.wake(&waker);
    executor.wake(&waker);
    let mut polls = 0;
    while let Some(ready) = executor.run_ready_tasks() {
        polls += 1;
        executor.task_polled(ready.task, Poll::Pending);
    }
    assert_eq!(polls, 3);
    assert_eq!(executor.sleep_if_idle(), IdleAction::EnableAndHalt);
}

#[test]
fn executor_drops_a_wake_up_that_comes_after_the_end_of_its_task() {
    let mut next_id = 0;
    let mut executor = Executor::new();
    executor.spawn(Task::new(1, &mut next_id));
    executor.spawn(Task::new(2, &mut next_id));
    let first = executor.run_ready_tasks().unwrap();
    let late = first.waker;
    executor.task_polled(first.task, Poll::Ready(()));
    // the finished task is woken once more, in front of the other
    let second = executor.run_ready_tasks().unwrap();
    executor.task_polled(second.task, Poll::Pending);
    executor.wake(&late);
    executor.wake(&second.waker);
    assert_eq!(executor.sleep_if_idle(), IdleAction::Enable);
    let ready = executor.run_ready_tasks().unwrap();
    assert_eq!(ready.task.id, TaskId(1));
    executor.task_polled(ready.task, Poll::Ready(()));
    executor.wake(&late);
    assert!(executor.run_ready_tasks().is_none());
    assert_eq!(executor.sleep_if_idle(), IdleAction::EnableAndHalt);
}

#[test]
fn executor_never_halts_while_a_task_waits() {
    let mut next_id = 0;
    let mut executor = Executor::new();
    assert_eq!(executor.sleep_if_idle(), IdleAction::EnableAndHalt);
    executor.spawn(Task::new((), &mut next_id));
    assert_eq!(executor.sleep_if_idle(), IdleAction::Enable);
    let ready = executor.run_ready_tasks().unwrap();
    // a wake-up while the task is polled
    executor.wake(&ready.waker);
    executor.task_polled(ready.task, Poll::Pending);
    assert_eq!(executor.sleep_if_idle(), IdleAction::Enable);
    let ready = executor.run_ready_tasks().unwrap();
    executor.task_polled(ready.task, Poll::Pending);
    assert_eq!(executor.sleep_if_idle(), IdleAction::EnableAndHalt);
}

#[test]
fn executor_main_loop_polls_until_nothing_is_ready() {
    let mut next_id = 0;
    let mut executor = Executor::new();
    executor.spawn(Task::new("first", &mut next_id));
    executor.spawn(Task::new("second", &mut next_id));
    let mut polled = None;
    let mut order = Vec::new();
    loop {
        match executor.run(polled.take()) {
            RunStep::PollTask(ready) => {
                order.push(ready.task.future);
                // the first task finishes at its second poll, the second at its first
                let poll = if ready.task.future == "first" && order.len() == 1 {
                    executor.wake(&ready.waker);
                    Poll::Pending
                } else {
                    Poll::Ready(())
                };
                polled = Some((ready.task, poll));
            }
            RunStep::SleepIfIdle => break,
        }
    }
    assert_eq!(order, ["first", "second", "first"]);
    assert_eq!(executor.sleep_if_idle(), IdleAction::EnableAndHalt);
    assert!(!executor.has_task(TaskId(0)));
    assert!(!executor.has_task(TaskId(1)));
}

#[test]
fn executor_queue_holds_a_hundred_ids() {
    let mut next_id = 0;
    let mut executor = Executor::new();
    for _ in 0..100 {
        assert!(!executor.queue_is_full());
        executor.spawn(Task::new((), &mut next_id));
    }
    assert!(executor.queue_is_full());
    let ready = executor.run_ready_tasks().unwrap();
    assert_eq!(ready.task.id, TaskId(0));
    assert!(!executor.queue_is_full());
}

#[test]
fn scancode_stream_is_pending_until_a_scancode_comes() {
    assert_eq!(SCANCODE_QUEUE_CAPACITY, 100);
    let mut state = ScancodeQueue::uninit();
    assert!(!state.is_initialized());
    assert_eq!(state.add_scancode(0x1e), ScancodeOutcome::Uninitialized);
    let mut stream = ScancodeStream::new(&mut state);
    assert!(state.is_initialized());
    assert!(ScancodeStream::try_new(&mut state).is_none());
    let waker = TaskWaker::new(TaskId(3));
    assert_eq!(stream.poll_next(&mut state, &waker), Poll::Pending);
    // the scancode wakes the task that waits, once
    assert_eq!(state.add_scancode(0x1e), ScancodeOutcome::Queued(Some(waker)));
    assert_eq!(state.add_scancode(0x9e), ScancodeOutcome::Queued(None));
    assert_eq!(stream.poll_next(&mut state, &waker), Poll::Ready(Some(0x1e)));
    assert_eq!(stream.poll_next(&mut state, &waker), Poll::Ready(Some(0x9e)));
    assert_eq!(stream.poll_next(&mut state, &waker), Poll::Pending);
}

#[test]
fn scancode_queue_drops_what_it_cannot_hold() {
    let mut state = ScancodeQueue::uninit();
    let mut stream = ScancodeStream::try_new(&mut state).unwrap();
    for scancode in 0..100u8 {
        assert_eq!(state.add_scancode(scancode), ScancodeOutcome::Queued(None));
    }
    assert_eq!(state.add_scancode(100), ScancodeOutcome::QueueFull);
    let waker = TaskWaker::new(TaskId(0));
    for scancode in 0..100u8 {
        assert_eq!(stream.poll_next(&mut state, &waker), Poll::Ready(Some(scancode)));
    }
    assert_eq!(stream.poll_next(&mut state, &waker), Poll::Pending);
}

#[test]
fn keyboard_pipeline() {
    // press and release of the key A print one `a`
    let mut state = ScancodeQueue::uninit();
    let mut stream = ScancodeStream::new(&mut state);
    let mut decoder = KeyDecoder::new();
    let waker = TaskWaker::new(TaskId(1));
    assert_eq!(stream.poll_next(&mut state, &waker), Poll::Pending);
    state.add_scancode(0x1e);
    state.add_scancode(0x9e);
    let mut printed = String::new();
    while let Poll::Ready(Some(scancode)) = stream.poll_next(&mut state, &waker) {
        if let Some(text) = print_keypresses(&mut decoder, scancode) {
            printed.push_str(&text);
        }
    }
    assert_eq!(printed, "a");
}

#[test]
fn key_decoder_follows_the_shift_key() {
    let mut decoder = KeyDecoder::new();
    assert_eq!(decoder.decode(0x2a), None);
    assert_eq!(decoder.decode(0x1e), Some(Key::Unicode('A')));
    assert_eq!(decoder.decode(0x9e), None);
    assert_eq!(decoder.decode(0xaa), None);
    assert_eq!(decoder.decode(0x30), Some(Key::Unicode('b')));
    // an extended key takes two bytes
    assert_eq!(decoder.decode(0xe0), None);
    assert_eq!(decoder.decode(0x48), Some(Key::RawKey(KeyCode::ArrowUp)));
}

#[test]
fn new_key_decoder_starts_afresh_and_ignores_the_ctrl_key() {
    // a letter stays a letter while Ctrl is held
    let mut decoder = KeyDecoder::new();
    assert_eq!(decoder.decode(0x1d), None);
    assert_eq!(decoder.decode(0x1e), Some(Key::Unicode('a')));
    assert_eq!(decoder.decode(0x9d), None);
    // a new decoder knows nothing of the keys that another one has seen
    let mut shifted = KeyDecoder::new();
    assert_eq!(shifted.decode(0x2a), None);
    assert_eq!(shifted.decode(0xe0), None);
    let mut fresh = KeyDecoder::new();
    assert_eq!(fresh.decode(0x48), Some(Key::Unicode('8')));
    let mut other = KeyDecoder::new();
    assert_eq!(other.decode(0x48), Some(Key::Unicode('8')));
    assert_eq!(shifted.decode(0x48), Some(Key::RawKey(KeyCode::ArrowUp)));
}

#[test]
fn key_text_is_the_character_or_the_name_of_the_key() {
    assert_eq!(key_text(&Key::Unicode('a')), "a");
    assert_eq!(key_text(&Key::Unicode('%')), "%");
    assert_eq!(key_text(&Key::RawKey(KeyCode::F1)), "F1");
    assert_eq!(key_text(&Key::RawKey(KeyCode::ArrowUp)), "ArrowUp");
    assert_eq!(keypress_text(None), None);
    assert_eq!(keypress_text(Some(Key::Unicode('x'))), Some(String::from("x")));
    let mut decoder = KeyDecoder::new();
    assert_eq!(print_keypresses(&mut decoder, 0x3b), Some(String::from("F1")));
    assert_eq!(print_keypresses(&mut decoder, 0xbb), None);
}
