//! The way of a scancode from the keyboard interrupt to the keyboard task,
//! and from there to the key press that it stands for.

use crate::task::executor::TaskWaker;
use crate::task::{new_queue, queue_capacity, queue_items, queue_pop, queue_push, Poll};
use crossbeam_queue::ArrayQueue;
use pc_keyboard::layouts::Us104Key;
use pc_keyboard::{DecodedKey, HandleControl, KeyCode, KeyEvent, Keyboard, ScancodeSet1};
use vstd::prelude::*;

verus! {

/// The number of scancodes that the scancode queue can hold.
pub const SCANCODE_QUEUE_CAPACITY: usize = 100;

/// What the keyboard interrupt and the keyboard task share: the queue of
/// scancodes, which exists once a stream has been made, and the one waker
/// that waits for a scancode.
pub struct ScancodeQueue {
    queue: Option<ArrayQueue<u64>>,
    waker: Option<TaskWaker>,
}

/// What a `ScancodeQueue` stands for. `queue` is `None` until the queue has
/// been made.
pub struct ScancodeQueueView {
    pub queue: Option<Seq<u8>>,
    pub waker: Option<TaskWaker>,
}

impl View for ScancodeQueue {
    type V = ScancodeQueueView;

    closed spec fn view(&self) -> ScancodeQueueView {
        ScancodeQueueView {
            queue: match self.queue {
                Some(queue) => Some(queue_items(queue).map_values(|item: u64| item as u8)),
                None => None,
            },
            waker: self.waker,
        }
    }
}

/// What became of a scancode that the keyboard interrupt brought.
#[derive(Debug, Clone, Copy, PartialEq, Eq, Structural)]
pub enum ScancodeOutcome {
    /// The scancode is in the queue. The waker that waited for it, if any,
    /// has left the waker slot and is to be woken.
    Queued(Option<TaskWaker>),
    /// The queue was full: the scancode is dropped.
    QueueFull,
    /// No stream has been made yet: the scancode is dropped.
    Uninitialized,
}

impl ScancodeQueue {
    /// The capacity of the queue, once it has been made.
    pub closed spec fn capacity(&self) -> nat {
        match self.queue {
            Some(queue) => queue_capacity(queue),
            None => SCANCODE_QUEUE_CAPACITY as nat,
        }
    }

    /// Every number in the queue is a byte.
    pub closed spec fn holds_bytes(&self) -> bool {
        match self.queue {
            Some(queue) => forall|i: int|
                0 <= i < queue_items(queue).len() ==> #[trigger] queue_items(queue)[i] <= u8::MAX,
            None => true,
        }
    }

    pub open spec fn wf(&self) -> bool {
        self.capacity() == SCANCODE_QUEUE_CAPACITY && self.holds_bytes()
    }

    /// The state before any stream exists.
    pub fn uninit() -> (state: Self)
        ensures
            state.wf(),
            state@ == (ScancodeQueueView { queue: None, waker: None }),
    {
        ScancodeQueue { queue: None, waker: None }
    }

    /// Tells whether the queue has been made.
    pub fn is_initialized(&self) -> (initialized: bool)
        ensures
            initialized == self@.queue.is_some(),
    {
        self.queue.is_some()
    }

    /// Takes a scancode from the keyboard interrupt. It must not block or
    /// allocate: the scancode goes into the queue, and the waker that waits
    /// for it leaves the waker slot to be woken; where the queue is full or
    /// not yet made, the scancode is dropped and nothing changes.
    pub fn add_scancode(&mut self, scancode: u8) -> (outcome: ScancodeOutcome)
        requires
            old(self).wf(),
        ensures
            final(self).wf(),
            outcome == add_scancode_outcome(old(self)@, scancode),
            final(self)@ == after_add_scancode(old(self)@, scancode),
    {
        match &mut self.queue {
            Some(queue) => {
                let ghost before = queue_items(*queue);
                if !queue_push(queue, scancode as u64) {
                    ScancodeOutcome::QueueFull
                } else {
                    proof {
                        assert(before.push(scancode as u64).map_values(|item: u64| item as u8)
                            =~= before.map_values(|item: u64| item as u8).push(scancode));
                    }
                    let woken = self.waker;
                    self.waker = None;
                    ScancodeOutcome::Queued(woken)
                }
            },
            None => ScancodeOutcome::Uninitialized,
        }
    }
}

/// What `add_scancode` returns.
pub open spec fn add_scancode_outcome(v: ScancodeQueueView, scancode: u8) -> ScancodeOutcome {
    match v.queue {
        Some(queue) => if queue.len() < SCANCODE_QUEUE_CAPACITY {
            ScancodeOutcome::Queued(v.waker)
        } else {
            ScancodeOutcome::QueueFull
        },
        None => ScancodeOutcome::Uninitialized,
    }
}

/// The state after `add_scancode`.
pub open spec fn after_add_scancode(v: ScancodeQueueView, scancode: u8) -> ScancodeQueueView {
    match v.queue {
        Some(queue) => if queue.len() < SCANCODE_QUEUE_CAPACITY {
            ScancodeQueueView { queue: Some(queue.push(scancode)), waker: None }
        } else {
            v
        },
        None => v,
    }
}

/// The stream of the scancodes that the keyboard interrupt has queued. There
/// is at most one.
pub struct ScancodeStream {
    _private: (),
}

impl ScancodeStream {
    /// Makes the scancode queue, and the one stream that reads it.
    pub fn new(state: &mut ScancodeQueue) -> (stream: Self)
        requires
            old(state)@.queue is None,
        ensures
            final(state).wf(),
            final(state)@ == (ScancodeQueueView {
                queue: Some(Seq::empty()),
                waker: old(state)@.waker,
            }),
    {
        state.queue = Some(new_queue(SCANCODE_QUEUE_CAPACITY));
        proof {
            assert(Seq::<u64>::empty().map_values(|item: u64| item as u8) =~= Seq::<u8>::empty());
        }
        ScancodeStream { _private: () }
    }

    /// Makes the scancode queue and its stream, unless the queue exists
    /// already.
    pub fn try_new(state: &mut ScancodeQueue) -> (stream: Option<Self>)
        requires
            old(state).wf(),
        ensures
            final(state).wf(),
            stream is Some <==> old(state)@.queue is None,
            final(state)@ == if old(state)@.queue is None {
                ScancodeQueueView { queue: Some(Seq::empty()), waker: old(state)@.waker }
            } else {
                old(state)@
            },
    {
        if state.is_initialized() {
            None
        } else {
            Some(Self::new(state))
        }
    }

    /// Takes the next scancode from the queue. Where the queue is empty, the
    /// waker of the caller is put into the waker slot, the queue is looked at
    /// once more, and the stream is pending if it is still empty; a scancode
    /// found at the second look takes the waker out of the slot again.
    pub fn poll_next(&mut self, state: &mut ScancodeQueue, waker: &TaskWaker) -> (poll: Poll<
        Option<u8>,
    >)
        requires
            old(state).wf(),
            old(state)@.queue is Some,
        ensures
            final(state).wf(),
            poll == poll_next_result(old(state)@),
            final(state)@ == after_poll_next(old(state)@, *waker),
    {
        match &mut state.queue {
            Some(queue) => {
                let ghost before = queue_items(*queue);
                proof {
                    if before.len() > 0 {
                        assert(before.drop_first().map_values(|item: u64| item as u8)
                            =~= before.map_values(|item: u64| item as u8).drop_first());
                        assert(before[0] <= u8::MAX);
                    }
                }
                if let Some(scancode) = queue_pop(queue) {
                    return Poll::Ready(Some(scancode as u8));
                }
                state.waker = Some(*waker);
                match queue_pop(queue) {
                    Some(scancode) => {
                        state.waker = None;
                        Poll::Ready(Some(scancode as u8))
                    },
                    None => Poll::Pending,
                }
            },
            None => Poll::Pending,
        }
    }
}

/// What `poll_next` returns: the scancode at the front of the queue, or
/// pending where there is none.
pub open spec fn poll_next_result(v: ScancodeQueueView) -> Poll<Option<u8>> {
    match v.queue {
        Some(queue) => if queue.len() > 0 {
            Poll::Ready(Some(queue[0]))
        } else {
            Poll::Pending
        },
        None => Poll::Pending,
    }
}

/// The state after `poll_next`: the scancode that was returned has left the
/// queue; where the stream is pending, the waker of the caller is in the slot.
pub open spec fn after_poll_next(v: ScancodeQueueView, waker: TaskWaker) -> ScancodeQueueView {
    match v.queue {
        Some(queue) => if queue.len() > 0 {
            ScancodeQueueView { queue: Some(queue.drop_first()), waker: v.waker }
        } else {
            ScancodeQueueView { queue: v.queue, waker: Some(waker) }
        },
        None => v,
    }
}

/// Scancodes reach the stream in the order in which the interrupt brought
/// them: a new scancode goes behind those that wait, and the stream returns
/// it only when none waits in front of it.
pub proof fn lemma_scancodes_in_order(v: ScancodeQueueView, scancode: u8)
    requires
        v.queue matches Some(queue) && queue.len() < SCANCODE_QUEUE_CAPACITY,
    ensures
        after_add_scancode(v, scancode).queue == Some(v.queue.unwrap().push(scancode)),
        v.queue.unwrap().len() == 0 ==> poll_next_result(after_add_scancode(v, scancode))
            == Poll::Ready(Some(scancode)),
        v.queue.unwrap().len() > 0 ==> poll_next_result(after_add_scancode(v, scancode))
            == poll_next_result(v),
{
}

/// A task that found the stream pending is woken by the next scancode: its
/// waker is what `add_scancode` hands out to be woken.
pub proof fn lemma_pending_task_is_woken(v: ScancodeQueueView, waker: TaskWaker, scancode: u8)
    requires
        v.queue == Some(Seq::<u8>::empty()),
    ensures
        poll_next_result(v) == Poll::<Option<u8>>::Pending,
        add_scancode_outcome(after_poll_next(v, waker), scancode) == ScancodeOutcome::Queued(
            Some(waker),
        ),
{
}

/// The decoder of the keyboard task: it turns the scancodes of the keyboard
/// into key presses. It holds the `Keyboard` of pc_keyboard for the US layout
/// and scancode set 1, whose state is what the decoder has seen so far.
#[verifier::external_body]
pub struct KeyDecoder {
    keyboard: Keyboard<Us104Key, ScancodeSet1>,
}

/// A key and whether it went down or up, as pc_keyboard decodes it.
#[verifier::external_type_specification]
#[verifier::external_body]
pub struct ExKeyEvent(KeyEvent);

/// The name of a key in pc_keyboard.
#[verifier::external_type_specification]
#[verifier::external_body]
pub struct ExKeyCode(KeyCode);

/// The error of the decoder of pc_keyboard.
#[verifier::external_type_specification]
#[verifier::external_body]
pub struct ExKeyboardError(pc_keyboard::Error);

/// What a key press gives: a character, or a key that stands for none.
#[derive(Debug, Clone, Copy, PartialEq, Eq)]
pub enum Key {
    Unicode(char),
    RawKey(KeyCode),
}

/// The text that pc_keyboard's derived `Debug` gives for a key code.
pub uninterp spec fn key_code_text(code: KeyCode) -> Seq<char>;

/// What a decoder makes of a letter that is pressed while a Ctrl key is held.
#[derive(Debug, Clone, Copy, PartialEq, Eq, Structural)]
pub enum ControlHandling {
    /// The letters A to Z become the characters U+0001 to U+001A.
    MapLettersToUnicode,
    /// The letters stay letters.
    Ignore,
}

/// The decoder that `Keyboard::new` of pc_keyboard makes for the US layout
/// and scancode set 1 with the given handling of the Ctrl key: it has seen no
/// byte, and no modifier key is held.
pub uninterp spec fn new_keyboard_spec(handle_ctrl: ControlHandling) -> KeyDecoder;

/// Calls `Keyboard::new` of pc_keyboard for the US layout and scancode set 1,
/// with the handling of the Ctrl key that is asked for.
#[verifier::external_body]
fn new_keyboard(handle_ctrl: ControlHandling) -> (decoder: KeyDecoder)
    ensures
        decoder == new_keyboard_spec(handle_ctrl),
{
    let handle_ctrl = match handle_ctrl {
        ControlHandling::MapLettersToUnicode => HandleControl::MapLettersToUnicode,
        ControlHandling::Ignore => HandleControl::Ignore,
    };
    KeyDecoder { keyboard: Keyboard::new(Us104Key, ScancodeSet1, handle_ctrl) }
}

/// What `Keyboard::add_byte` of pc_keyboard returns for a byte, and the
/// decoder after the call. Both follow from the bytes that the decoder has
/// seen before.
pub uninterp spec fn add_byte_spec(decoder: KeyDecoder, byte: u8) -> (
    Result<Option<KeyEvent>, pc_keyboard::Error>,
    KeyDecoder,
);

/// What `Keyboard::process_keyevent` of pc_keyboard returns for a key event,
/// and the decoder after the call. Both follow from the modifier keys that
/// are held.
pub uninterp spec fn process_keyevent_spec(decoder: KeyDecoder, event: KeyEvent) -> (
    Option<Key>,
    KeyDecoder,
);

/// Calls `Keyboard::add_byte` of pc_keyboard, which steps the decoder by one
/// byte of the scancode set.
#[verifier::external_body]
fn keyboard_add_byte(decoder: &mut KeyDecoder, byte: u8) -> (event: Result<
    Option<KeyEvent>,
    pc_keyboard::Error,
>)
    ensures
        event == add_byte_spec(*old(decoder), byte).0,
        *final(decoder) == add_byte_spec(*old(decoder), byte).1,
{
    decoder.keyboard.add_byte(byte)
}

/// Calls `Keyboard::process_keyevent` of pc_keyboard, which follows the
/// modifier keys and maps any other key that goes down through the layout.
#[verifier::external_body]
fn keyboard_process_keyevent(decoder: &mut KeyDecoder, event: KeyEvent) -> (key: Option<Key>)
    ensures
        key == process_keyevent_spec(*old(decoder), event).0,
        *final(decoder) == process_keyevent_spec(*old(decoder), event).1,
{
    match decoder.keyboard.process_keyevent(event) {
        Some(DecodedKey::Unicode(character)) => Some(Key::Unicode(character)),
        Some(DecodedKey::RawKey(code)) => Some(Key::RawKey(code)),
        None => None,
    }
}

/// Formats a key code with the `Debug` that pc_keyboard derives for it.
#[verifier::external_body]
fn key_code_debug(code: &KeyCode) -> (text: String)
    ensures
        text@ == key_code_text(*code),
{
    format!("{:?}", code)
}

/// Calls `String::from` of std on a character: the string of that one
/// character.
#[verifier::external_body]
fn char_to_string(character: char) -> (text: String)
    ensures
        text@ == seq![character],
{
    String::from(character)
}

/// The key event in what the decoder returned for a byte, if there is one:
/// an error and an unfinished sequence of bytes give none.
pub fn key_event_of(decoded: Result<Option<KeyEvent>, pc_keyboard::Error>) -> (event: Option<
    KeyEvent,
>)
    ensures
        event == match decoded {
            Ok(Some(key_event)) => Some(key_event),
            _ => None::<KeyEvent>,
        },
{
    match decoded {
        Ok(Some(key_event)) => Some(key_event),
        _ => None,
    }
}

/// The text that a key press prints: the character itself, or the name of a
/// key that stands for none.
pub open spec fn key_text_spec(key: Key) -> Seq<char> {
    match key {
        Key::Unicode(character) => seq![character],
        Key::RawKey(code) => key_code_text(code),
    }
}

/// The text that a key press prints.
pub fn key_text(key: &Key) -> (text: String)
    ensures
        text@ == key_text_spec(*key),
{
    match key {
        Key::Unicode(character) => char_to_string(*character),
        Key::RawKey(code) => key_code_debug(code),
    }
}

/// What `decode` returns for a scancode, and the decoder after the call: the
/// decoder takes the scancode; where that completes a key event, the event
/// is processed and gives the key press, if it is one.
pub open spec fn decode_spec(decoder: KeyDecoder, scancode: u8) -> (Option<Key>, KeyDecoder) {
    let (decoded, decoder) = add_byte_spec(decoder, scancode);
    match decoded {
        Ok(Some(key_event)) => process_keyevent_spec(decoder, key_event),
        _ => (None, decoder),
    }
}

impl KeyDecoder {
    /// A decoder for a US keyboard that sends scancode set 1. It has seen no
    /// scancode yet, and it leaves letters alone while a Ctrl key is held.
    pub fn new() -> (decoder: Self)
        ensures
            decoder == new_keyboard_spec(ControlHandling::Ignore),
    {
        new_keyboard(ControlHandling::Ignore)
    }

    /// Feeds one scancode to the decoder, and returns the key press that it
    /// completes, if any.
    pub fn decode(&mut self, scancode: u8) -> (key: Option<Key>)
        ensures
            key == decode_spec(*old(self), scancode).0,
            *final(self) == decode_spec(*old(self), scancode).1,
    {
        match key_event_of(keyboard_add_byte(self, scancode)) {
            Some(key_event) => keyboard_process_keyevent(self, key_event),
            None => None,
        }
    }
}

/// What the keyboard task prints for a decoded scancode: the text of the key
/// press, and nothing where the scancode completed none.
pub fn keypress_text(key: Option<Key>) -> (text: Option<String>)
    ensures
        match key {
            Some(key) => text matches Some(text) && text@ == key_text_spec(key),
            None => text is None,
        },
{
    match key {
        Some(key) => Some(key_text(&key)),
        None => None,
    }
}

/// One turn of the keyboard task: decodes a scancode that the stream gave,
/// and returns what to print for it.
pub fn print_keypresses(decoder: &mut KeyDecoder, scancode: u8) -> (text: Option<String>)
    ensures
        *final(decoder) == decode_spec(*old(decoder), scancode).1,
        match decode_spec(*old(decoder), scancode).0 {
            Some(key) => text matches Some(text) && text@ == key_text_spec(key),
            None => text is None,
        },
{
    keypress_text(decoder.decode(scancode))
}

} // verus!
