//! PS/2 keyboard input: the scancode queue filled from interrupt context
//! and the decoder that turns scancodes into characters.
//!
//! The port read that fetches a scancode is a hardware operation performed
//! outside this crate. The queue is crossbeam's bounded `ArrayQueue`, and
//! the decode state machine is pc-keyboard's; both are called through
//! trusted declarations below, and everything around them is verified.

use vstd::prelude::*;

use crate::interrupt::set_irq_handler;
use crate::interrupt::IrqTable;
use crate::logging::kernel_log_spec;
use crate::logging::kernel_warning;
use crate::pic::Pics;
use crate::vga::BgColor;
use crate::vga::FgColor;
use crate::vga::Writer;

use crossbeam_queue::ArrayQueue;
use pc_keyboard::layouts::Us104Key;
use pc_keyboard::DecodedKey;
use pc_keyboard::KeyCode;
use pc_keyboard::KeyEvent;
use pc_keyboard::PS2Keyboard;
use pc_keyboard::ScancodeSet1;

verus! {

#[verifier::external_type_specification]
#[verifier::external_body]
#[verifier::reject_recursive_types(T)]
pub struct ExArrayQueue<T>(ArrayQueue<T>);

/// The scancode decode state machine. Verus refuses the generic
/// declaration of the underlying type, so it is held opaquely here; the
/// decoder is driven only through the trusted wrappers below.
#[verifier::external_body]
pub struct Keyboard {
    inner: PS2Keyboard<Us104Key, ScancodeSet1>,
}

#[verifier::external_type_specification]
#[verifier::external_body]
pub struct ExKeyEvent(KeyEvent);

#[verifier::external_type_specification]
#[verifier::external_body]
pub struct ExDecodedKey(DecodedKey);

#[verifier::external_type_specification]
#[verifier::external_body]
pub struct ExKeyCode(KeyCode);

#[verifier::external_type_specification]
#[verifier::external_body]
pub struct ExPcKeyboardError(pc_keyboard::Error);

/// The scancodes held by a queue, front first.
pub uninterp spec fn queue_contents(q: &ArrayQueue<u8>) -> Seq<u8>;

/// The fixed capacity a queue was created with.
pub uninterp spec fn queue_capacity(q: &ArrayQueue<u8>) -> nat;

/// Relies on crossbeam's ArrayQueue::new: a fresh bounded queue with the
/// given capacity, holding nothing.
#[verifier::external_body]
fn queue_new(cap: usize) -> (q: ArrayQueue<u8>)
    requires
        1 <= cap < 0x4000_0000_0000_0000,
    ensures
        queue_contents(&q) == Seq::<u8>::empty(),
        queue_capacity(&q) == cap,
{
    ArrayQueue::new(cap)
}

/// Relies on crossbeam's ArrayQueue::push_mut: appends at the tail when
/// the queue is below capacity; a full queue hands the value back
/// unchanged.
#[verifier::external_body]
fn queue_push(q: &mut ArrayQueue<u8>, value: u8) -> (r: Result<(), u8>)
    ensures
        queue_contents(old(q)).len() < queue_capacity(old(q)) ==> (r is Ok) && queue_contents(final(q)) == queue_contents(old(q)).push(value) && queue_capacity(final(q)) == queue_capacity(old(q)),
        queue_contents(old(q)).len() >= queue_capacity(old(q)) ==> (r matches Err(v) && v == value) && queue_contents(final(q)) == queue_contents(old(q)) && queue_capacity(final(q)) == queue_capacity(old(q)),
{
    q.push_mut(value)
}

/// Relies on crossbeam's ArrayQueue::pop_mut: takes the front element, if
/// any.
#[verifier::external_body]
fn queue_pop(q: &mut ArrayQueue<u8>) -> (r: Option<u8>)
    ensures
        queue_contents(old(q)).len() > 0 ==> r == Some(queue_contents(old(q))[0]) && queue_contents(final(q)) == queue_contents(old(q)).drop_first() && queue_capacity(final(q)) == queue_capacity(old(q)),
        queue_contents(old(q)).len() == 0 ==> (r is None) && queue_contents(final(q)) == queue_contents(old(q)) && queue_capacity(final(q)) == queue_capacity(old(q)),
{
    q.pop_mut()
}

/// Relies on crossbeam's ArrayQueue::is_empty.
#[verifier::external_body]
fn queue_is_empty(q: &ArrayQueue<u8>) -> (r: bool)
    ensures
        r == (queue_contents(q).len() == 0),
{
    q.is_empty()
}

/// Relies on pc-keyboard's PS2Keyboard::new: a fresh US-layout, scancode
/// set 1 decoder.
#[verifier::external_body]
fn keyboard_new() -> (kb: Keyboard) {
    Keyboard {
        inner: PS2Keyboard::new(ScancodeSet1::new(), Us104Key, pc_keyboard::HandleControl::Ignore),
    }
}

/// Relies on pc-keyboard's PS2Keyboard::add_byte: advances the decode
/// state machine by one scancode byte; what comes back depends on the
/// decoder's accumulated state.
#[verifier::external_body]
fn keyboard_add_byte(kb: &mut Keyboard, byte: u8) -> (r: Result<Option<KeyEvent>, pc_keyboard::Error>) {
    kb.inner.add_byte(byte)
}

/// Relies on pc-keyboard's PS2Keyboard::process_keyevent: applies the
/// modifier state to a key event; what comes back depends on the
/// decoder's accumulated state.
#[verifier::external_body]
fn keyboard_process_keyevent(kb: &mut Keyboard, ev: KeyEvent) -> (r: Option<DecodedKey>) {
    kb.inner.process_keyevent(ev)
}

/// A decoded key as the rest of the system sees it.
pub enum OsChar {
    /// A printable character.
    Display(char),
    /// A key with no character, carried as pc-keyboard's raw key code.
    Special(KeyCode),
}

/// Relies on pc-keyboard's DecodedKey: tells its two variants apart,
/// moving the field of each.
#[verifier::external_body]
fn decoded_to_oschar(key: DecodedKey) -> (r: OsChar) {
    match key {
        DecodedKey::Unicode(character) => OsChar::Display(character),
        DecodedKey::RawKey(code) => OsChar::Special(code),
    }
}

/// Decodes one scancode byte. The result depends on the decoder's
/// accumulated state (held keys and modifiers), which is opaque here, so
/// no more is promised than the shape: consumers take whatever key comes
/// out as an argument and are verified for every value of it.
pub fn decode_scancode(keyboard: &mut Keyboard, scancode: u8) -> Option<OsChar> {
    match keyboard_add_byte(keyboard, scancode) {
        Ok(Some(key_event)) => {
            match keyboard_process_keyevent(keyboard, key_event) {
                Some(key) => Some(decoded_to_oschar(key)),
                None => None,
            }
        },
        _ => None,
    }
}

/// The registry identifier under which the embedder dispatches the
/// keyboard handler for hardware line 1.
pub const KEYBOARD_HANDLER: u64 = 3;

/// How many scancodes the queue holds before input is dropped.
pub const SCANCODE_QUEUE_CAPACITY: usize = 100;

/// The keyboard input state: the interrupt-filled scancode queue and the
/// decoder.
pub struct Ps2 {
    pub queue: ArrayQueue<u8>,
    pub keyboard: Keyboard,
}

impl Ps2 {
    pub fn new() -> (p: Ps2)
        ensures
            queue_contents(&p.queue) == Seq::<u8>::empty(),
            queue_capacity(&p.queue) == SCANCODE_QUEUE_CAPACITY,
    {
        Ps2 { queue: queue_new(SCANCODE_QUEUE_CAPACITY), keyboard: keyboard_new() }
    }

    /// Empties the scancode queue.
    pub fn drain_queue(&mut self)
        ensures
            queue_contents(&final(self).queue).len() == 0,
            queue_capacity(&final(self).queue) == queue_capacity(&old(self).queue),
    {
        while !queue_is_empty(&self.queue)
            invariant
                queue_capacity(&self.queue) == queue_capacity(&old(self).queue),
            decreases queue_contents(&self.queue).len(),
        {
            let _dropped = queue_pop(&mut self.queue);
        }
    }
}

/// Registers the keyboard handler on hardware line 1 and unmasks the
/// line.
pub fn init_ps2(table: &mut IrqTable, pics: &mut Pics)
    requires
        old(table).wf(),
    ensures
        final(table).wf(),
        final(table).handlers@ == old(table).handlers@.update(1, KEYBOARD_HANDLER),
        final(pics)@.same_but_masks(old(pics)@),
        forall|l: u8|
            l < 16 ==> final(pics)@.line_masked(l) == (l != 1 && old(pics)@.line_masked(l)),
{
    set_irq_handler(table, pics, 1, KEYBOARD_HANDLER);
}

/// The keyboard handler's body, given the scancode the embedder read from
/// the data port: queues it — dropping it with a warning when the queue
/// is full — then feeds it to the decoder. The decoded key, if any, is
/// returned for the embedder to route to the key bindings. Runs in
/// interrupt context: it never blocks.
pub fn add_scancode(ps2: &mut Ps2, w: &mut Writer, scancode: u8) -> (r: Option<OsChar>)
    requires
        old(w)@.wf(),
    ensures
        final(w)@.wf(),
        queue_capacity(&final(ps2).queue) == queue_capacity(&old(ps2).queue),
        queue_contents(&old(ps2).queue).len() < queue_capacity(&old(ps2).queue) ==> queue_contents(
            &final(ps2).queue,
        ) == queue_contents(&old(ps2).queue).push(scancode) && final(w)@ == old(w)@,
        queue_contents(&old(ps2).queue).len() >= queue_capacity(&old(ps2).queue)
            ==> queue_contents(&final(ps2).queue) == queue_contents(&old(ps2).queue) && final(w)@
            == kernel_log_spec(
            old(w)@,
            "Scancode queue full; dropping keyboard input"@,
            FgColor::Yellow,
            BgColor::Brown,
        ),
{
    if queue_push(&mut ps2.queue, scancode).is_err() {
        kernel_warning(w, "Scancode queue full; dropping keyboard input");
    }
    decode_scancode(&mut ps2.keyboard, scancode)
}

} // verus!
