//! Interrupt bookkeeping: the vectors the interrupt descriptor table routes,
//! the timer tick counter and the keyboard decoding step.
use vstd::prelude::*;
use pc_keyboard::{KeyEvent, PS2Keyboard, ScancodeSet1};
use pc_keyboard::layouts::Us104Key;

verus! {

#[verifier::external_type_specification]
#[verifier::external_body]
pub struct ExKeyEvent(KeyEvent);

/// How the decoder treats letters typed with Ctrl held down.
#[derive(Clone, Copy, PartialEq, Eq, Structural, Debug)]
pub enum HandleControl {
    /// Ctrl+A to Ctrl+Z become the characters U+0001 to U+001A.
    MapLettersToUnicode,
    /// Letters stay letters; Ctrl presses come through as raw keys.
    Ignore,
}

/// A decoded key press.
#[derive(Debug)]
pub enum DecodedKey {
    /// A key that stands for a character.
    Unicode(char),
    /// A key with no character, by its key code name.
    RawKey(String),
}


/// First vector of the primary interrupt controller: one past the last CPU
/// exception vector (31), so hardware interrupts and CPU exceptions never
/// share an entry of the descriptor table.
pub const PIC_1_OFFSET: u8 = 32;

/// First vector of the secondary interrupt controller.
pub const PIC_2_OFFSET: u8 = PIC_1_OFFSET + 8;

/// Vector of the breakpoint exception (`int3`).
pub const BREAKPOINT_VECTOR: u8 = 3;

/// Vector of the double fault exception.
pub const DOUBLE_FAULT_VECTOR: u8 = 8;

/// Vector of the page fault exception.
pub const PAGE_FAULT_VECTOR: u8 = 14;

/// The hardware interrupts the kernel handles.
#[derive(Clone, Copy, PartialEq, Eq, Structural, Debug)]
pub enum InterruptIndex {
    /// The programmable interval timer, line 0 of the primary controller.
    Timer,
    /// The PS/2 keyboard, line 1 of the primary controller.
    Keyboard,
}

impl InterruptIndex {
    /// The vector the interrupt arrives on.
    pub open spec fn vector(self) -> u8 {
        match self {
            InterruptIndex::Timer => PIC_1_OFFSET,
            InterruptIndex::Keyboard => (PIC_1_OFFSET + 1) as u8,
        }
    }

    /// The vector the interrupt arrives on.
    pub fn as_u8(self) -> (r: u8)
        ensures
            r == self.vector(),
    {
        match self {
            InterruptIndex::Timer => PIC_1_OFFSET,
            InterruptIndex::Keyboard => PIC_1_OFFSET + 1,
        }
    }
}

/// The handlers the descriptor table routes to.
#[derive(Clone, Copy, PartialEq, Eq, Structural, Debug)]
pub enum InterruptHandler {
    /// Logs the breakpoint and resumes.
    Breakpoint,
    /// Reports the fault and halts.
    PageFault,
    /// Reports the fault and panics.
    DoubleFault,
    /// Counts the tick and acknowledges it.
    Timer,
    /// Decodes the scan code, echoes the key and acknowledges it.
    Keyboard,
}

/// One entry of the interrupt descriptor table.
#[derive(Clone, Copy, PartialEq, Eq, Structural, Debug)]
pub struct IdtEntry {
    /// The vector the entry serves.
    pub vector: u8,
    /// The handler it routes to.
    pub handler: InterruptHandler,
    /// Whether the handler runs on the dedicated interrupt stack, so that a
    /// kernel stack overflow, itself a double fault, does not triple fault.
    pub uses_interrupt_stack: bool,
}

/// The entries the descriptor table is built with, in the order they are set.
pub open spec fn idt_entries() -> Seq<IdtEntry> {
    seq![
        IdtEntry { vector: BREAKPOINT_VECTOR, handler: InterruptHandler::Breakpoint, uses_interrupt_stack: false },
        IdtEntry { vector: PAGE_FAULT_VECTOR, handler: InterruptHandler::PageFault, uses_interrupt_stack: false },
        IdtEntry { vector: DOUBLE_FAULT_VECTOR, handler: InterruptHandler::DoubleFault, uses_interrupt_stack: true },
        IdtEntry { vector: InterruptIndex::Timer.vector(), handler: InterruptHandler::Timer, uses_interrupt_stack: false },
        IdtEntry { vector: InterruptIndex::Keyboard.vector(), handler: InterruptHandler::Keyboard, uses_interrupt_stack: false },
    ]
}

/// The interrupt descriptor table to install: breakpoint, page fault and
/// double fault exceptions, then the timer and keyboard interrupts.
pub fn init_idt() -> (r: Vec<IdtEntry>)
    ensures
        r@ == idt_entries(),
{
    let mut idt: Vec<IdtEntry> = Vec::new();
    idt.push(IdtEntry { vector: BREAKPOINT_VECTOR, handler: InterruptHandler::Breakpoint, uses_interrupt_stack: false });
    idt.push(IdtEntry { vector: PAGE_FAULT_VECTOR, handler: InterruptHandler::PageFault, uses_interrupt_stack: false });
    idt.push(IdtEntry { vector: DOUBLE_FAULT_VECTOR, handler: InterruptHandler::DoubleFault, uses_interrupt_stack: true });
    idt.push(IdtEntry { vector: InterruptIndex::Timer.as_u8(), handler: InterruptHandler::Timer, uses_interrupt_stack: false });
    idt.push(IdtEntry { vector: InterruptIndex::Keyboard.as_u8(), handler: InterruptHandler::Keyboard, uses_interrupt_stack: false });
    proof {
        assert(idt@ =~= idt_entries());
    }
    idt
}

/// No two entries of the descriptor table serve the same vector, and the
/// hardware interrupts arrive above the CPU exception vectors 0 to 31, on
/// the lines of the primary controller.
pub proof fn lemma_idt_vectors_distinct()
    ensures
        forall|i: int, j: int|
            0 <= i < idt_entries().len() && 0 <= j < idt_entries().len() && i != j
                ==> #[trigger] idt_entries()[i].vector != #[trigger] idt_entries()[j].vector,
        forall|k: InterruptIndex| 31 < #[trigger] k.vector() && k.vector() < PIC_2_OFFSET,
{
}

/// The number of timer interrupts handled since boot.
pub struct TickCounter {
    count: u64,
}

impl TickCounter {
    pub closed spec fn count(&self) -> u64 {
        self.count
    }

    /// A counter that has seen no tick.
    pub fn new() -> (r: TickCounter)
        ensures
            r.count() == 0,
    {
        TickCounter { count: 0 }
    }
}

/// The number of timer interrupts handled since boot.
pub fn ticks(counter: &TickCounter) -> (r: u64)
    ensures
        r == counter.count(),
{
    counter.count
}

/// The tick count after one more tick: it wraps around past `u64::MAX`.
pub open spec fn next_tick(count: u64) -> u64 {
    if count == u64::MAX {
        0
    } else {
        (count + 1) as u64
    }
}

/// Handles a timer interrupt: counts the tick, and returns the vector to
/// acknowledge to the interrupt controller, without which it would deliver
/// no further timer interrupt.
pub fn timer_interrupt(counter: &mut TickCounter) -> (end_of_interrupt: u8)
    ensures
        final(counter).count() == next_tick(old(counter).count()),
        end_of_interrupt == InterruptIndex::Timer.vector(),
{
    counter.count = counter.count.wrapping_add(1);
    InterruptIndex::Timer.as_u8()
}

/// Each timer interrupt raises the tick count by one, until it wraps at
/// `u64::MAX`; so ticks strictly increase while they are below it.
pub proof fn lemma_ticks_increase(count: u64)
    requires
        count < u64::MAX,
    ensures
        next_tick(count) == count + 1,
        next_tick(count) > count,
{
}


/// The tick count after `k` timer interrupts counted from a fresh counter.
pub open spec fn ticks_after(k: nat) -> u64
    decreases k,
{
    if k == 0 {
        0
    } else {
        next_tick(ticks_after((k - 1) as nat))
    }
}

/// After `k` timer interrupts from a fresh counter, the count is `k`
/// (modulo 2^64); between `j <= k` interrupts, below 2^64, the count never
/// goes down, and goes up when more interrupts were handled.
pub proof fn lemma_ticks_count(j: nat, k: nat)
    requires
        j <= k,
    ensures
        ticks_after(k) == k % 0x1_0000_0000_0000_0000,
        k < 0x1_0000_0000_0000_0000 ==> ticks_after(j) <= ticks_after(k),
        k < 0x1_0000_0000_0000_0000 && j < k ==> ticks_after(j) < ticks_after(k),
    decreases k,
{
    if k > 0 {
        lemma_ticks_count(if j == k { (k - 1) as nat } else { j }, (k - 1) as nat);
        let p = (k - 1) as nat;
        assert(ticks_after(k) == next_tick(ticks_after(p)));
        if p % 0x1_0000_0000_0000_0000 == 0xffff_ffff_ffff_ffff {
            assert(k % 0x1_0000_0000_0000_0000 == 0) by (nonlinear_arith)
                requires
                    p % 0x1_0000_0000_0000_0000 == 0xffff_ffff_ffff_ffff,
                    k == p + 1,
            ;
        } else {
            assert(k % 0x1_0000_0000_0000_0000 == p % 0x1_0000_0000_0000_0000 + 1) by (nonlinear_arith)
                requires
                    p % 0x1_0000_0000_0000_0000 != 0xffff_ffff_ffff_ffff,
                    k == p + 1,
            ;
        }
    }
}

/// A key press, as the contracts speak of it.
pub enum KeyPress {
    /// A key that stands for a character.
    Unicode(char),
    /// A key with no character, by the name of its key code.
    RawKey(Seq<char>),
}

impl View for DecodedKey {
    type V = KeyPress;

    open spec fn view(&self) -> KeyPress {
        match self {
            DecodedKey::Unicode(c) => KeyPress::Unicode(*c),
            DecodedKey::RawKey(name) => KeyPress::RawKey(name@),
        }
    }
}

/// A decoded key press, if any, as the contracts speak of it.
pub open spec fn key_view(k: Option<DecodedKey>) -> Option<KeyPress> {
    match k {
        Some(key) => Some(key@),
        None => None,
    }
}

/// What feeding one scan code byte to the decoder gives.
pub enum ScanOutcome {
    /// The byte is not understood (an unknown key code).
    Invalid,
    /// The byte leaves a scan code sequence incomplete.
    Incomplete,
    /// The byte completes a key event.
    Event(KeyEvent),
}

/// The scan code bytes fed to the decoder since it was made.
pub uninterp spec fn decoder_input(d: KeyboardDecoder) -> Seq<u8>;

/// The key events the decoder has turned into key presses since it was made.
pub uninterp spec fn decoder_events(d: KeyboardDecoder) -> Seq<KeyEvent>;

/// Whether the decoder maps Ctrl+letter to the characters U+0001 to U+001A.
pub uninterp spec fn decoder_maps_ctrl_letters(d: KeyboardDecoder) -> bool;

/// What the scan code decoder gives for the last byte of `bytes`, having
/// been fed the ones before it.
pub uninterp spec fn scan_outcome(bytes: Seq<u8>) -> ScanOutcome;

/// The key press, if any, that a decoder with the given Ctrl handling gives
/// for `event`, having turned the events of `earlier` into key presses
/// before it (they set the modifier keys).
pub uninterp spec fn pressed_key(maps_ctrl_letters: bool, earlier: Seq<KeyEvent>, event: KeyEvent) -> Option<KeyPress>;

/// What the keyboard interrupt does once the scan code is decoded.
#[derive(Debug)]
pub struct KeyboardAction {
    /// The key press to echo on the console, if the byte completed one.
    pub echo: Option<DecodedKey>,
    /// The vector to acknowledge to the interrupt controller.
    pub end_of_interrupt: u8,
}

/// The action for the outcome of decoding one scan code: echo the key press,
/// if any, and acknowledge the keyboard interrupt in every case, without
/// which the controller would deliver no further keyboard interrupt.
pub fn keyboard_action(decoded: Option<DecodedKey>) -> (r: KeyboardAction)
    ensures
        r.echo == decoded,
        r.end_of_interrupt == InterruptIndex::Keyboard.vector(),
{
    KeyboardAction { echo: decoded, end_of_interrupt: InterruptIndex::Keyboard.as_u8() }
}

/// Handles a keyboard interrupt with the scan code read from the
/// controller: feeds it to the decoder, whose scan code and modifier state
/// carries over from the earlier bytes. Only a completed key event goes on
/// to be turned into a key press, which is echoed; a byte that is not
/// understood or leaves a sequence incomplete echoes nothing. The interrupt
/// is acknowledged whatever the decoder gives.
pub fn keyboard_interrupt(keyboard: &mut KeyboardDecoder, scancode: u8) -> (r: KeyboardAction)
    ensures
        decoder_input(*final(keyboard)) == decoder_input(*old(keyboard)).push(scancode),
        decoder_maps_ctrl_letters(*final(keyboard)) == decoder_maps_ctrl_letters(*old(keyboard)),
        match scan_outcome(decoder_input(*old(keyboard)).push(scancode)) {
            ScanOutcome::Event(event) => {
                &&& decoder_events(*final(keyboard)) == decoder_events(*old(keyboard)).push(event)
                &&& key_view(r.echo) == pressed_key(
                    decoder_maps_ctrl_letters(*old(keyboard)),
                    decoder_events(*old(keyboard)),
                    event,
                )
            },
            _ => {
                &&& decoder_events(*final(keyboard)) == decoder_events(*old(keyboard))
                &&& r.echo is None
            },
        },
        r.end_of_interrupt == InterruptIndex::Keyboard.vector(),
{
    let decoded = match keyboard.add_byte(scancode) {
        ScanOutcome::Event(event) => keyboard.process_keyevent(event),
        ScanOutcome::Invalid => None,
        ScanOutcome::Incomplete => None,
    };
    keyboard_action(decoded)
}

/// The PS/2 keyboard decoder of `pc_keyboard` (scan code set 1, US 104-key
/// layout). Its state is a function of its Ctrl handling, the bytes fed to
/// it and the key events it has turned into key presses, and is given by
/// those three.
#[verifier::external_body]
pub struct KeyboardDecoder {
    inner: PS2Keyboard<Us104Key, ScancodeSet1>,
}

impl KeyboardDecoder {
    /// `pc_keyboard::PS2Keyboard::new` (with `ScancodeSet1::new`): a decoder
    /// with the given Ctrl handling that has been fed nothing.
    #[verifier::external_body]
    pub fn new(handle_ctrl: HandleControl) -> (r: KeyboardDecoder)
        ensures
            decoder_input(r) == Seq::<u8>::empty(),
            decoder_events(r) == Seq::<KeyEvent>::empty(),
            decoder_maps_ctrl_letters(r) == (handle_ctrl == HandleControl::MapLettersToUnicode),
    {
        let handle = match handle_ctrl {
            HandleControl::MapLettersToUnicode => pc_keyboard::HandleControl::MapLettersToUnicode,
            HandleControl::Ignore => pc_keyboard::HandleControl::Ignore,
        };
        KeyboardDecoder { inner: PS2Keyboard::new(ScancodeSet1::new(), Us104Key, handle) }
    }

    /// `pc_keyboard::PS2Keyboard::add_byte`: feeds one scan code byte to the
    /// scan code decoder. The crate's error (an unknown key code) becomes
    /// `Invalid`. Which outcome comes back is named by `scan_outcome` over
    /// all bytes fed so far; it is not stated.
    #[verifier::external_body]
    fn add_byte(&mut self, byte: u8) -> (r: ScanOutcome)
        ensures
            decoder_input(*final(self)) == decoder_input(*old(self)).push(byte),
            decoder_events(*final(self)) == decoder_events(*old(self)),
            decoder_maps_ctrl_letters(*final(self)) == decoder_maps_ctrl_letters(*old(self)),
            r == scan_outcome(decoder_input(*old(self)).push(byte)),
    {
        match self.inner.add_byte(byte) {
            Ok(Some(event)) => ScanOutcome::Event(event),
            Ok(None) => ScanOutcome::Incomplete,
            Err(_) => ScanOutcome::Invalid,
        }
    }

    /// `pc_keyboard::PS2Keyboard::process_keyevent`: turns a key event into a
    /// key press under the current modifier keys, and updates them. Every
    /// key press yields a key, modifier presses included; a release or any
    /// other event yields `None`. A key with no character is given by the
    /// name of its key code. Which key press
    /// comes back is named by `pressed_key` over the Ctrl handling, the
    /// events processed before and this one; it is not stated.
    #[verifier::external_body]
    fn process_keyevent(&mut self, event: KeyEvent) -> (r: Option<DecodedKey>)
        ensures
            decoder_input(*final(self)) == decoder_input(*old(self)),
            decoder_events(*final(self)) == decoder_events(*old(self)).push(event),
            decoder_maps_ctrl_letters(*final(self)) == decoder_maps_ctrl_letters(*old(self)),
            key_view(r) == pressed_key(decoder_maps_ctrl_letters(*old(self)), decoder_events(*old(self)), event),
    {
        match self.inner.process_keyevent(event) {
            Some(pc_keyboard::DecodedKey::Unicode(c)) => Some(DecodedKey::Unicode(c)),
            Some(pc_keyboard::DecodedKey::RawKey(k)) => Some(DecodedKey::RawKey(format!("{:?}", k))),
            None => None,
        }
    }
}

} // verus!
