//! Interrupt-controller, vector-table, registry and syscall behaviour.

use lateral::interrupt::default_irq_handler;
use lateral::interrupt::hardware_interrupt;
use lateral::interrupt::init_idt;
use lateral::interrupt::interrupt_index;
use lateral::interrupt::set_irq_handler;
use lateral::interrupt::syscall_handler;
use lateral::interrupt::IdtEntry;
use lateral::interrupt::IrqTable;
use lateral::interrupt::Registers;
use lateral::interrupt::DEFAULT_IRQ_HANDLER;
use lateral::interrupt::PIC_1_OFFSET;
use lateral::interrupt::PIC_2_OFFSET;
use lateral::interrupt::SYSCALL_VECTOR;
use lateral::pic::clear_irq_mask;
use lateral::pic::set_irq_mask;
use lateral::pic::Pics;
use lateral::rtc::init;
use lateral::rtc::last_rtc_update;
use lateral::rtc::nanowait;
use lateral::rtc::pit_interrupt_handler;
use lateral::rtc::rtc_interrupt_handler;
use lateral::rtc::sleep_done;
use lateral::rtc::ticks;
use lateral::rtc::Clock;
use lateral::rtc::PIT_DIVIDER;
use lateral::rtc::PIT_HANDLER;
use lateral::rtc::RTC_HANDLER;
use lateral::syscall::dispatcher;
use lateral::syscall::SYSCALL_REALTIME;
use lateral::syscall::SYSCALL_SLEEP;
use lateral::syscall::SYSCALL_UPTIME;

fn fresh_pics() -> Pics {
    Pics::new(PIC_1_OFFSET, PIC_2_OFFSET)
}

#[test]
fn vector_table_routes_every_vector() {
    let t = init_idt();
    assert_eq!(t.entries.len(), 256);
    assert_eq!(t.entries[3], IdtEntry::Breakpoint);
    assert_eq!(t.entries[8], IdtEntry::DoubleFault);
    assert_eq!(t.entries[14], IdtEntry::PageFault);
    for irq in 0u8..16 {
        assert_eq!(t.entries[32 + irq as usize], IdtEntry::Irq(irq));
    }
    assert_eq!(t.entries[0x80], IdtEntry::Syscall);
    assert_eq!(t.entries[0], IdtEntry::Missing);
    assert_eq!(t.entries[48], IdtEntry::Missing);
    assert_eq!(t.entries[255], IdtEntry::Missing);
}

#[test]
fn interrupt_index_is_offset_plus_line() {
    assert_eq!(interrupt_index(0), 32);
    assert_eq!(interrupt_index(15), 47);
}

#[test]
fn registering_a_handler_unmasks_exactly_its_line() {
    let mut pics = fresh_pics();
    let mut table = IrqTable::new();
    for i in 0..16 {
        assert_eq!(table.handlers[i], DEFAULT_IRQ_HANDLER);
    }
    assert_eq!(pics.primary.mask, 0xFF);
    assert_eq!(pics.secondary.mask, 0xFF);
    set_irq_handler(&mut table, &mut pics, 3, 77);
    assert_eq!(table.handlers[3], 77);
    assert_eq!(pics.primary.mask, 0xFF & !(1 << 3));
    assert_eq!(pics.secondary.mask, 0xFF);
    set_irq_handler(&mut table, &mut pics, 11, 78);
    assert_eq!(pics.secondary.mask, 0xFF & !(1 << 3));
}

#[test]
fn mask_computation_picks_the_owning_chip_and_bit() {
    let mut pics = fresh_pics();
    clear_irq_mask(&mut pics, 6);
    assert_eq!(pics.primary.mask, 0b1011_1111);
    assert_eq!(pics.secondary.mask, 0xFF);
    clear_irq_mask(&mut pics, 8);
    assert_eq!(pics.secondary.mask, 0b1111_1110);
    set_irq_mask(&mut pics, 6);
    assert_eq!(pics.primary.mask, 0xFF);
    set_irq_mask(&mut pics, 8);
    assert_eq!(pics.secondary.mask, 0xFF);
}

#[test]
fn each_interrupt_acknowledges_the_correct_chip_exactly_once() {
    let mut pics = fresh_pics();
    let mut table = IrqTable::new();
    set_irq_handler(&mut table, &mut pics, 3, 71);
    set_irq_handler(&mut table, &mut pics, 11, 72);

    // A primary-chip line: one end-of-interrupt to the primary only.
    assert_eq!(hardware_interrupt(&table, &mut pics, 3), Some(71));
    assert_eq!(pics.primary.eoi_log, vec![35]);
    assert_eq!(pics.secondary.eoi_log, Vec::<u8>::new());

    // A secondary-chip line: the secondary is acknowledged, and the
    // primary once more for the cascade.
    assert_eq!(hardware_interrupt(&table, &mut pics, 11), Some(72));
    assert_eq!(pics.secondary.eoi_log, vec![43]);
    assert_eq!(pics.primary.eoi_log, vec![35, 43]);
}

#[test]
fn masked_line_never_fires() {
    let mut pics = fresh_pics();
    let mut table = IrqTable::new();
    // Nothing registered: line 5 is still masked, so asserting it does
    // nothing at all.
    assert_eq!(hardware_interrupt(&table, &mut pics, 5), None);
    assert!(pics.primary.eoi_log.is_empty());

    // Mask a line again after registration: it stops firing.
    set_irq_handler(&mut table, &mut pics, 4, 9);
    set_irq_mask(&mut pics, 4);
    assert_eq!(hardware_interrupt(&table, &mut pics, 4), None);
    assert!(pics.primary.eoi_log.is_empty());
}

#[test]
fn default_handler_is_a_no_op() {
    default_irq_handler();
}

fn snapshot() -> Registers {
    Registers {
        r15: 1,
        r14: 2,
        r13: 3,
        r12: 4,
        r11: 5,
        r10: 6,
        r9: 7,
        r8: 8,
        rdi: 0xD1,
        rsi: 0xD2,
        rdx: 0xD3,
        rcx: 12,
        rbx: 13,
        rax: SYSCALL_UPTIME,
        rbp: 15,
    }
}

#[test]
fn syscall_populates_only_the_result_slot() {
    // A crafted register snapshot naming a read-only syscall: after
    // dispatch only the result register differs; every other slot is
    // byte-identical.
    let clock = Clock {
        pit_ticks: 1234,
        last_rtc_update: 77,
        clocks_per_nanosecond: 3,
        pit_divider: PIT_DIVIDER,
    };
    let mut pics = fresh_pics();
    let before = snapshot();
    let mut regs = snapshot();
    syscall_handler(&mut regs, &clock, &mut pics);
    assert_eq!(regs.rax, 1234);
    assert_eq!(
        Registers { rax: before.rax, ..regs },
        before
    );
    // The syscall vector is owned by neither chip: the acknowledgment
    // goes nowhere.
    assert!(pics.primary.eoi_log.is_empty());
    assert!(pics.secondary.eoi_log.is_empty());
    assert_eq!(SYSCALL_VECTOR, 0x80);
}

#[test]
fn dispatcher_answers_each_numbered_syscall() {
    let clock = Clock {
        pit_ticks: 42,
        last_rtc_update: 40,
        clocks_per_nanosecond: 2,
        pit_divider: PIT_DIVIDER,
    };
    assert_eq!(dispatcher(&clock, SYSCALL_UPTIME, 0, 0, 0), 42);
    assert_eq!(dispatcher(&clock, SYSCALL_REALTIME, 0, 0, 0), 40);
    assert_eq!(dispatcher(&clock, SYSCALL_SLEEP, 5, 0, 0), 0);
    assert_eq!(dispatcher(&clock, 999, 0, 0, 0), u64::MAX);
}

#[test]
fn timer_handlers_count_and_record_ticks() {
    let mut pics = fresh_pics();
    let mut table = IrqTable::new();
    let mut clock = init(&mut table, &mut pics, 1_000_000, 251_000_000);
    assert_eq!(clock.pit_divider, PIT_DIVIDER);
    assert_eq!(clock.clocks_per_nanosecond, 1000);
    assert_eq!(table.handlers[0], PIT_HANDLER);
    assert_eq!(table.handlers[8], RTC_HANDLER);
    assert_eq!(ticks(&clock), 0);

    pit_interrupt_handler(&mut clock);
    pit_interrupt_handler(&mut clock);
    assert_eq!(ticks(&clock), 2);
    assert_eq!(last_rtc_update(&clock), 0);
    rtc_interrupt_handler(&mut clock);
    assert_eq!(last_rtc_update(&clock), 2);
    pit_interrupt_handler(&mut clock);
    assert_eq!(ticks(&clock), 3);
    assert_eq!(last_rtc_update(&clock), 2);

    // The timer and clock lines were unmasked by registration.
    assert_eq!(hardware_interrupt(&table, &mut pics, 0), Some(PIT_HANDLER));
    assert_eq!(hardware_interrupt(&table, &mut pics, 8), Some(RTC_HANDLER));
}

#[test]
fn wait_primitives_compute_their_budgets() {
    let clock = Clock {
        pit_ticks: 10,
        last_rtc_update: 0,
        clocks_per_nanosecond: 3,
        pit_divider: PIT_DIVIDER,
    };
    assert_eq!(nanowait(&clock, 16_667), 50_001);
    assert!(!sleep_done(&clock, 8, 3));
    assert!(sleep_done(&clock, 8, 2));
    assert!(sleep_done(&clock, 0, 10));
}
