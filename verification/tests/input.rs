//! PS/2 decoding through the real scancode queue and keyboard decoder,
//! plus the small identifier and harness types.

use lateral::interrupt::hardware_interrupt;
use lateral::interrupt::IrqTable;
use lateral::interrupt::PIC_1_OFFSET;
use lateral::interrupt::PIC_2_OFFSET;
use lateral::pic::Pics;
use lateral::ps2::add_scancode;
use lateral::ps2::init_ps2;
use lateral::ps2::OsChar;
use lateral::ps2::Ps2;
use lateral::ps2::KEYBOARD_HANDLER;
use lateral::ps2::SCANCODE_QUEUE_CAPACITY;
use lateral::task::TaskId;
use lateral::test::run;
use lateral::test::run_should_panic;
use lateral::test::runner;
use lateral::test::ExitCode;
use lateral::test::Testable;
use lateral::vga::Writer;
use lateral::vga::HEIGHT;

#[test]
fn keyboard_line_is_registered_and_unmasked() {
    let mut pics = Pics::new(PIC_1_OFFSET, PIC_2_OFFSET);
    let mut table = IrqTable::new();
    init_ps2(&mut table, &mut pics);
    assert_eq!(table.handlers[1], KEYBOARD_HANDLER);
    assert_eq!(hardware_interrupt(&table, &mut pics, 1), Some(KEYBOARD_HANDLER));
}

#[test]
fn scancode_decodes_to_a_character() {
    let mut ps2 = Ps2::new();
    let mut w = Writer::new();
    // Scancode set 1: 0x1E is the make code for the A key.
    let key = add_scancode(&mut ps2, &mut w, 0x1E);
    assert!(matches!(key, Some(OsChar::Display('a'))), "got {:?}", key.is_some());
    // Break code: the release produces no character.
    let release = add_scancode(&mut ps2, &mut w, 0x9E);
    assert!(release.is_none());
}

#[test]
fn shift_modifier_upcases() {
    let mut ps2 = Ps2::new();
    let mut w = Writer::new();
    // Left shift make, then the A key.
    let _shift = add_scancode(&mut ps2, &mut w, 0x2A);
    let key = add_scancode(&mut ps2, &mut w, 0x1E);
    assert!(matches!(key, Some(OsChar::Display('A'))));
}

#[test]
fn full_queue_drops_input_with_a_warning() {
    let mut ps2 = Ps2::new();
    let mut w = Writer::new();
    for _ in 0..SCANCODE_QUEUE_CAPACITY {
        add_scancode(&mut ps2, &mut w, 0x9E);
        // The writer stays untouched while the queue accepts input.
        assert_eq!(w.buffer.chars[HEIGHT - 2][1].ascii_character, b' ');
    }
    add_scancode(&mut ps2, &mut w, 0x9E);
    // The drop was logged: the warning badge is on the screen.
    let badge: Vec<u8> = w.buffer.chars[HEIGHT - 2][0..8]
        .iter()
        .map(|c| c.ascii_character)
        .collect();
    assert_eq!(badge, b" KERNEL ");
    // After draining, there is room again and no further warning row.
    ps2.drain_queue();
    let mut w2 = Writer::new();
    add_scancode(&mut ps2, &mut w2, 0x9E);
    assert_eq!(w2.buffer.chars[HEIGHT - 2][1].ascii_character, b' ');
}

#[test]
fn task_ids_carry_their_counter_value() {
    let a = TaskId::new(0);
    let b = TaskId::new(1);
    assert_eq!(a.0, 0);
    assert_eq!(b.0, 1);
    assert!(a < b);
    assert_eq!(a, TaskId::new(0));
}

struct Quiet;

impl Testable for Quiet {
    fn run(&self) {}

    fn run_should_panic(&self) {}
}

#[test]
fn harness_reports_exit_codes() {
    assert_eq!(ExitCode::Success.code(), 2);
    assert_eq!(ExitCode::Failure.code(), 3);
    let tests = vec![Quiet, Quiet];
    assert_eq!(runner(&tests), ExitCode::Success);
    assert_eq!(run(&Quiet), ExitCode::Success);
    // A should-panic case that returns is a failure.
    assert_eq!(run_should_panic(&Quiet), ExitCode::Failure);
}
