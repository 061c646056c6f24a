//! Keyboard input: scancodes queued by the interrupt handler and decoded into
//! the characters that the shell reads.
use vstd::prelude::*;
use crossbeam_queue::ArrayQueue;
use pc_keyboard::layouts::Us104Key;
use pc_keyboard::{DecodedKey, HandleControl, KeyCode, KeyEvent, KeyState, PS2Keyboard, ScancodeSet1};

verus! {

/// How many scancodes (or keys) the queues hold before they drop input.
pub const KEY_QUEUE_CAPACITY: usize = 100;

/// The bounded queue of crossbeam-queue, opaque to Verus.
#[verifier::external_type_specification]
#[verifier::external_body]
#[verifier::reject_recursive_types(T)]
pub struct ExArrayQueue<T>(ArrayQueue<T>);

/// A key event of pc_keyboard: a key code and what happened to the key.
#[verifier::external_type_specification]
pub struct ExKeyEvent(KeyEvent);

/// What happened to a key in a key event of pc_keyboard.
#[verifier::external_type_specification]
pub struct ExKeyState(KeyState);

/// A decoded key of pc_keyboard: a character, or a raw key code.
#[verifier::external_type_specification]
pub struct ExDecodedKey(DecodedKey);

/// The key codes of pc_keyboard.
#[verifier::external_type_specification]
pub struct ExKeyCode(KeyCode);

/// The decoding error of pc_keyboard, opaque to Verus.
#[verifier::external_type_specification]
#[verifier::external_body]
pub struct ExKeyboardError(pc_keyboard::Error);

/// What pc_keyboard's `PS2Keyboard::add_byte` returns for the last byte of
/// `fed`, when a fresh decoder of the machine's keyboard (US 104-key layout,
/// scancode set 1, Ctrl passed through) is fed the bytes of `fed` in order.
/// The scancode decoder is deterministic: its state is a function of the
/// bytes fed to it.
pub uninterp spec fn scancode_event(fed: Seq<u8>) -> Result<Option<KeyEvent>, pc_keyboard::Error>;

/// What pc_keyboard's `PS2Keyboard::process_keyevent` returns for the last
/// event of `events`, when a fresh decoder of the machine's keyboard is given
/// the events of `events` in order. The key decoder is deterministic: the
/// modifier keys it tracks are a function of the events it was given.
pub uninterp spec fn key_after_events(events: Seq<KeyEvent>) -> Option<DecodedKey>;

/// The key events that the bytes of `fed` complete, in order.
pub open spec fn completed_events(fed: Seq<u8>) -> Seq<KeyEvent>
    decreases fed.len(),
{
    if fed.len() == 0 {
        seq![]
    } else {
        let before = completed_events(fed.drop_last());
        match scancode_event(fed) {
            Ok(Some(event)) => before.push(event),
            _ => before,
        }
    }
}

/// The key that the last byte of `fed` completes, once every byte of `fed`
/// was fed in order and every completed event was decoded: nothing when the
/// byte completes no event or is refused.
pub open spec fn key_decoded(fed: Seq<u8>) -> Option<DecodedKey> {
    match scancode_event(fed) {
        Ok(Some(_)) => key_after_events(completed_events(fed)),
        _ => None,
    }
}

/// Every key event that the scancode decoder completes, a key release
/// included, is given to the key decoder, in order, and the key of a byte is
/// what the key decoder answers to the event that byte completes; a byte that
/// completes no event gives no key and changes no event.
pub proof fn lemma_every_completed_event_is_decoded(fed: Seq<u8>, byte: u8)
    ensures
        match scancode_event(fed.push(byte)) {
            Ok(Some(event)) => {
                &&& completed_events(fed.push(byte)) == completed_events(fed).push(event)
                &&& key_decoded(fed.push(byte)) == key_after_events(completed_events(fed).push(event))
            },
            _ => {
                &&& completed_events(fed.push(byte)) == completed_events(fed)
                &&& key_decoded(fed.push(byte)) is None
            },
        },
{
    assert(fed.push(byte).drop_last() =~= fed);
}

/// pc_keyboard's decoder of the machine's keyboard: a PS/2 keyboard with the
/// US 104-key layout that sends scancode set 1, with Ctrl passed through.
///
/// Trusted as a whole: Verus refuses a declaration of `PS2Keyboard`, whose
/// parameters are bounded by traits of pc_keyboard, so it is held here and
/// Verus sees nothing of its state.
#[verifier::external_body]
struct Ps2State {
    keyboard: PS2Keyboard<Us104Key, ScancodeSet1>,
}

/// A fresh pc_keyboard decoder of the machine's keyboard.
///
/// Trusted: calls `PS2Keyboard::new` of pc_keyboard; nothing is stated of the
/// opaque decoder.
#[verifier::external_body]
fn fresh_ps2_state() -> Ps2State {
    Ps2State { keyboard: PS2Keyboard::new(ScancodeSet1::new(), Us104Key, HandleControl::Ignore) }
}

/// The decoder of the machine's keyboard, with the record of the bytes fed
/// to it and of the key events it decoded.
pub struct KeyDecoder {
    keyboard: Ps2State,
    fed: Ghost<Seq<u8>>,
    events: Ghost<Seq<KeyEvent>>,
}

impl KeyDecoder {
    /// The bytes fed to the decoder since it was made, in order.
    pub closed spec fn fed(&self) -> Seq<u8> {
        self.fed@
    }

    /// The key events given to the decoder since it was made, in order.
    pub closed spec fn events(&self) -> Seq<KeyEvent> {
        self.events@
    }

    /// The decoder has decoded exactly the events that the bytes fed completed.
    pub open spec fn wf(&self) -> bool {
        self.events() == completed_events(self.fed())
    }

    /// A decoder in its initial state: nothing was fed to it.
    pub fn new() -> (r: Self)
        ensures
            r.wf(),
            r.fed() == Seq::<u8>::empty(),
    {
        KeyDecoder {
            keyboard: fresh_ps2_state(),
            fed: Ghost(Seq::empty()),
            events: Ghost(Seq::empty()),
        }
    }

    /// Feeds one scancode byte to pc_keyboard.
    ///
    /// Trusted: calls `PS2Keyboard::add_byte` of pc_keyboard, which advances
    /// its scancode decoder by the byte; the result is named by
    /// `scancode_event` of all the bytes fed so far, the byte last.
    #[verifier::external_body]
    fn add_byte(&mut self, byte: u8) -> (r: Result<Option<KeyEvent>, pc_keyboard::Error>)
        ensures
            final(self).fed() == old(self).fed().push(byte),
            final(self).events() == old(self).events(),
            r == scancode_event(final(self).fed()),
    {
        self.keyboard.keyboard.add_byte(byte)
    }

    /// Turns a key event into a key, following the layout and the modifier
    /// keys held down.
    ///
    /// Trusted: calls `PS2Keyboard::process_keyevent` of pc_keyboard, which
    /// updates its modifier keys by the event; the result is named by
    /// `key_after_events` of all the events given so far, this one last.
    #[verifier::external_body]
    fn process_keyevent(&mut self, event: KeyEvent) -> (r: Option<DecodedKey>)
        ensures
            final(self).fed() == old(self).fed(),
            final(self).events() == old(self).events().push(event),
            r == key_after_events(final(self).events()),
    {
        self.keyboard.keyboard.process_keyevent(event)
    }

    /// Feeds one scancode byte and returns the key, as pc_keyboard decodes
    /// it, that the byte completes, if any: a byte that completes no event, or
    /// that the decoder refuses, gives nothing.
    pub fn decode_key(&mut self, scancode: u8) -> (r: Option<DecodedKey>)
        requires
            old(self).wf(),
        ensures
            final(self).wf(),
            final(self).fed() == old(self).fed().push(scancode),
            r == key_decoded(final(self).fed()),
            final(self).events() == (match scancode_event(final(self).fed()) {
                Ok(Some(event)) => old(self).events().push(event),
                _ => old(self).events(),
            }),
            r == (match scancode_event(final(self).fed()) {
                Ok(Some(event)) => key_after_events(old(self).events().push(event)),
                _ => None,
            }),
    {
        let fed = self.add_byte(scancode);
        proof {
            assert(self.fed().drop_last() =~= old(self).fed());
        }
        match completed_event(fed) {
            Some(event) => self.process_keyevent(event),
            None => None,
        }
    }

    /// Feeds one scancode byte and returns the key it completes, if any.
    pub fn decode(&mut self, scancode: u8) -> (r: Option<Key>)
        requires
            old(self).wf(),
        ensures
            final(self).wf(),
            final(self).events() == (match scancode_event(final(self).fed()) {
                Ok(Some(event)) => old(self).events().push(event),
                _ => old(self).events(),
            }),
            final(self).fed() == old(self).fed().push(scancode),
            r == (match key_decoded(final(self).fed()) {
                Some(k) => Some(key_of_spec(k)),
                None => None,
            }),
    {
        match self.decode_key(scancode) {
            Some(key) => Some(key_of(key)),
            None => None,
        }
    }

    /// Feeds one scancode byte and returns the character that it gives the
    /// shell, if any (see [`key_input`]).
    pub fn next_input(&mut self, scancode: u8) -> (r: Option<char>)
        requires
            old(self).wf(),
        ensures
            final(self).wf(),
            final(self).events() == (match scancode_event(final(self).fed()) {
                Ok(Some(event)) => old(self).events().push(event),
                _ => old(self).events(),
            }),
            final(self).fed() == old(self).fed().push(scancode),
            r == (match key_decoded(final(self).fed()) {
                Some(k) => key_input_spec(key_of_spec(k)),
                None => None,
            }),
    {
        match self.decode(scancode) {
            Some(key) => key_input(key),
            None => None,
        }
    }
}

/// The keys that the shell tells apart.
#[derive(Debug, Clone, Copy, PartialEq, Eq, Structural)]
pub enum RawKey {
    /// The Enter key.
    Enter,
    /// Any other key without a character.
    Other,
}

/// A decoded key.
#[derive(Debug, Clone, Copy, PartialEq, Eq, Structural)]
pub enum Key {
    /// A key that gives a character.
    Unicode(char),
    /// A key that gives no character.
    Raw(RawKey),
}

/// The key event that feeding a byte completed: the event when the decoder
/// gave one, nothing when the byte completed no event or was refused.
pub fn completed_event(
    fed: Result<Option<KeyEvent>, pc_keyboard::Error>,
) -> (r: Option<KeyEvent>)
    ensures
        r == (match fed {
            Ok(Some(event)) => Some(event),
            _ => None,
        }),
{
    match fed {
        Ok(Some(event)) => Some(event),
        _ => None,
    }
}

/// The key that the shell sees for a key that pc_keyboard decoded: a
/// character stays a character, the raw Return key is Enter, and every other
/// raw key is one without a character.
pub open spec fn key_of_spec(key: DecodedKey) -> Key {
    match key {
        DecodedKey::Unicode(c) => Key::Unicode(c),
        DecodedKey::RawKey(code) => if code == KeyCode::Return {
            Key::Raw(RawKey::Enter)
        } else {
            Key::Raw(RawKey::Other)
        },
    }
}

/// The key that the shell sees for a key that pc_keyboard decoded.
pub fn key_of(key: DecodedKey) -> (r: Key)
    ensures
        r == key_of_spec(key),
{
    match key {
        DecodedKey::Unicode(c) => Key::Unicode(c),
        DecodedKey::RawKey(KeyCode::Return) => Key::Raw(RawKey::Enter),
        DecodedKey::RawKey(_) => Key::Raw(RawKey::Other),
    }
}

/// The character that a key gives the shell: its own character, a newline
/// for Enter, and nothing for the other keys without a character.
pub open spec fn key_input_spec(key: Key) -> Option<char> {
    match key {
        Key::Unicode(c) => Some(c),
        Key::Raw(RawKey::Enter) => Some('\n'),
        Key::Raw(RawKey::Other) => None,
    }
}

/// The character that a key gives the shell.
pub fn key_input(key: Key) -> (r: Option<char>)
    ensures
        r == key_input_spec(key),
{
    match key {
        Key::Unicode(c) => Some(c),
        Key::Raw(RawKey::Enter) => Some('\n'),
        Key::Raw(RawKey::Other) => None,
    }
}

/// A new, empty queue for keyboard input.
///
/// Trusted: calls `ArrayQueue::new` of crossbeam-queue, which panics when the
/// capacity is zero or so large that one lap of indexes overflows; `requires`
/// excludes both. Nothing is stated of the queue.
#[verifier::external_body]
fn array_queue_new<T>(capacity: usize) -> ArrayQueue<T>
    requires
        0 < capacity <= usize::MAX / 2,
{
    ArrayQueue::new(capacity)
}

/// Offers an item to a queue.
///
/// Trusted: calls `ArrayQueue::push` of crossbeam-queue, which hands the item
/// back when the queue is full. Whether it is full depends on other threads
/// and handlers, so only that is stated: an item handed back is the one offered.
#[verifier::external_body]
fn array_queue_push<T>(queue: &ArrayQueue<T>, item: T) -> (r: Result<(), T>)
    ensures
        r matches Err(back) ==> back == item,
{
    queue.push(item)
}

/// Takes the oldest item of a queue, if there is one.
///
/// Trusted: calls `ArrayQueue::pop` of crossbeam-queue; what it returns depends
/// on what other threads and handlers pushed, so nothing is stated.
#[verifier::external_body]
fn array_queue_pop<T>(queue: &ArrayQueue<T>) -> Option<T> {
    queue.pop()
}

/// A new queue for keyboard input, with room for [`KEY_QUEUE_CAPACITY`] items.
pub fn new_key_queue<T>() -> ArrayQueue<T> {
    array_queue_new(KEY_QUEUE_CAPACITY)
}

/// What became of an item offered to a full or non-full queue.
#[derive(Debug, Clone, Copy, PartialEq, Eq, Structural)]
pub enum Enqueued {
    /// The item is in the queue: wake the reader.
    Accepted,
    /// The queue was full: the item is dropped and a warning is due.
    Full,
}

/// What became of an offered item, given what the queue answered: taken, or
/// handed back because the queue was full.
pub fn push_outcome<T>(answer: Result<(), T>) -> (r: Enqueued)
    ensures
        r == (if answer is Ok {
            Enqueued::Accepted
        } else {
            Enqueued::Full
        }),
{
    match answer {
        Ok(()) => Enqueued::Accepted,
        Err(_) => Enqueued::Full,
    }
}

/// Offers an item to a keyboard queue.
pub fn enqueue<T>(queue: &ArrayQueue<T>, item: T) -> (r: Enqueued) {
    push_outcome(array_queue_push(queue, item))
}

/// Takes the oldest item of a keyboard queue, if there is one.
pub fn dequeue<T>(queue: &ArrayQueue<T>) -> Option<T> {
    array_queue_pop(queue)
}

} // verus!
