use kernel::interrupts::{
    init_idt, keyboard_action, keyboard_interrupt, ticks, timer_interrupt, DecodedKey, HandleControl,
    IdtEntry, InterruptHandler, InterruptIndex, KeyboardDecoder, TickCounter, PIC_1_OFFSET, PIC_2_OFFSET,
};

#[test]
fn interrupt_vectors() {
    assert_eq!(PIC_1_OFFSET, 32);
    assert_eq!(PIC_2_OFFSET, 40);
    assert_eq!(InterruptIndex::Timer.as_u8(), 32);
    assert_eq!(InterruptIndex::Keyboard.as_u8(), 33);
}

#[test]
fn idt_routes_each_vector_once() {
    let idt = init_idt();
    let expected = vec![
        IdtEntry { vector: 3, handler: InterruptHandler::Breakpoint, uses_interrupt_stack: false },
        IdtEntry { vector: 14, handler: InterruptHandler::PageFault, uses_interrupt_stack: false },
        IdtEntry { vector: 8, handler: InterruptHandler::DoubleFault, uses_interrupt_stack: true },
        IdtEntry { vector: 32, handler: InterruptHandler::Timer, uses_interrupt_stack: false },
        IdtEntry { vector: 33, handler: InterruptHandler::Keyboard, uses_interrupt_stack: false },
    ];
    assert_eq!(idt, expected);
}

#[test]
fn test_timer_ticks_increase() {
    let mut counter = TickCounter::new();
    let start = ticks(&counter);
    assert_eq!(start, 0);
    let eoi = timer_interrupt(&mut counter);
    assert_eq!(eoi, 32);
    assert!(ticks(&counter) > start);
    timer_interrupt(&mut counter);
    assert_eq!(ticks(&counter), 2);
}

#[test]
fn keyboard_decodes_letters_and_shift() {
    let mut kb = KeyboardDecoder::new(HandleControl::Ignore);
    let a = keyboard_interrupt(&mut kb, 0x1E);
    assert_eq!(a.end_of_interrupt, 33);
    assert!(matches!(a.echo, Some(DecodedKey::Unicode('a'))));
    // Releasing the key yields nothing, but is still acknowledged.
    let release = keyboard_interrupt(&mut kb, 0x9E);
    assert!(release.echo.is_none());
    assert_eq!(release.end_of_interrupt, 33);
    // Left shift comes through as a raw key, then shifts the next letter.
    let shift = keyboard_interrupt(&mut kb, 0x2A);
    match shift.echo {
        Some(DecodedKey::RawKey(name)) => assert_eq!(name, "LShift"),
        other => panic!("unexpected {:?}", other),
    }
    let big_a = keyboard_interrupt(&mut kb, 0x1E);
    assert!(matches!(big_a.echo, Some(DecodedKey::Unicode('A'))));
}

#[test]
fn keyboard_action_always_acknowledges() {
    let none = keyboard_action(None);
    assert!(none.echo.is_none());
    assert_eq!(none.end_of_interrupt, 33);
    let some = keyboard_action(Some(DecodedKey::Unicode('z')));
    assert!(matches!(some.echo, Some(DecodedKey::Unicode('z'))));
}

#[test]
fn keyboard_state_carries_over_multi_byte_sequences() {
    let mut kb = KeyboardDecoder::new(HandleControl::Ignore);
    // 0xE0 0x48 is the extended scan code of the up arrow.
    let prefix = keyboard_interrupt(&mut kb, 0xE0);
    assert!(prefix.echo.is_none());
    let up = keyboard_interrupt(&mut kb, 0x48);
    match up.echo {
        Some(DecodedKey::RawKey(name)) => assert_eq!(name, "ArrowUp"),
        other => panic!("unexpected {:?}", other),
    }
}

#[test]
fn many_ticks_count_up() {
    let mut counter = TickCounter::new();
    let mut last = ticks(&counter);
    for k in 1..=1000u64 {
        timer_interrupt(&mut counter);
        let now = ticks(&counter);
        assert_eq!(now, k);
        assert!(now > last);
        last = now;
    }
}
