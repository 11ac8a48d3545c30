//! Timekeeping state: the tick counter fed by the programmable interval
//! timer, the last real-time-clock update, and the calibrated
//! cycles-per-nanosecond value used by the busy-wait primitives.
//!
//! Reading the cycle counter and halting between polls are hardware
//! operations performed outside this crate; the arithmetic they feed is
//! verified here.

use vstd::prelude::*;

use crate::interrupt::set_irq_handler;
use crate::interrupt::IrqTable;
use crate::pic::Pics;

verus! {

/// The divider programmed into the interval timer.
pub const PIT_DIVIDER: u16 = 1193;

/// The number of cycle-counter samples averaged while calibrating.
pub const CALIBRATION_TIME: u64 = 250000;

/// The registry identifier under which the embedder dispatches
/// `pit_interrupt_handler` for hardware line 0.
pub const PIT_HANDLER: u64 = 1;

/// The registry identifier under which the embedder dispatches
/// `rtc_interrupt_handler` for hardware line 8.
pub const RTC_HANDLER: u64 = 2;

/// The kernel's time state. Ticks advance only through the registered
/// timer handler; nothing here ever forces a context switch.
#[derive(Copy, Clone, PartialEq, Eq, Structural, Debug)]
pub struct Clock {
    pub pit_ticks: u64,
    pub last_rtc_update: u64,
    pub clocks_per_nanosecond: u64,
    pub pit_divider: u16,
}

/// Programs the timer state and registers the two timing handlers: the
/// tick counter on line 0 and the real-time-clock update on line 8, both
/// unmasked by registration. The two cycle-counter samples, taken by the
/// embedder around a fixed calibration wait, fix the cycles-per-nanosecond
/// value.
pub fn init(table: &mut IrqTable, pics: &mut Pics, tsc_before: u64, tsc_after: u64) -> (clock:
    Clock)
    requires
        old(table).wf(),
        tsc_before <= tsc_after,
    ensures
        clock.pit_divider == PIT_DIVIDER,
        clock.pit_ticks == 0,
        clock.last_rtc_update == 0,
        clock.clocks_per_nanosecond == (tsc_after - tsc_before) / (CALIBRATION_TIME as int),
        final(table).wf(),
        final(table).handlers@ == old(table).handlers@.update(0, PIT_HANDLER).update(
            8,
            RTC_HANDLER,
        ),
        final(pics)@.same_but_masks(old(pics)@),
        forall|l: u8|
            l < 16 ==> final(pics)@.line_masked(l) == (l != 0 && l != 8 && old(
                pics,
            )@.line_masked(l)),
{
    let divider: u16 = PIT_DIVIDER;
    set_irq_handler(table, pics, 0, PIT_HANDLER);
    set_irq_handler(table, pics, 8, RTC_HANDLER);
    let clocks = (tsc_after - tsc_before) / CALIBRATION_TIME;
    Clock {
        pit_ticks: 0,
        last_rtc_update: 0,
        clocks_per_nanosecond: clocks,
        pit_divider: divider,
    }
}

/// The current tick count.
pub fn ticks(clock: &Clock) -> (r: u64)
    ensures
        r == clock.pit_ticks,
{
    clock.pit_ticks
}

/// The tick count at the last real-time-clock update.
pub fn last_rtc_update(clock: &Clock) -> (r: u64)
    ensures
        r == clock.last_rtc_update,
{
    clock.last_rtc_update
}

/// The timer handler: counts one tick and does nothing else.
pub fn pit_interrupt_handler(clock: &mut Clock)
    requires
        old(clock).pit_ticks < u64::MAX,
    ensures
        final(clock).pit_ticks == old(clock).pit_ticks + 1,
        final(clock).last_rtc_update == old(clock).last_rtc_update,
        final(clock).clocks_per_nanosecond == old(clock).clocks_per_nanosecond,
        final(clock).pit_divider == old(clock).pit_divider,
{
    clock.pit_ticks = clock.pit_ticks + 1;
}

/// The real-time-clock handler: records the tick count of the update. The
/// acknowledgment owed to the clock chip itself is a port write performed
/// by the embedder.
pub fn rtc_interrupt_handler(clock: &mut Clock)
    ensures
        final(clock).last_rtc_update == old(clock).pit_ticks,
        final(clock).pit_ticks == old(clock).pit_ticks,
        final(clock).clocks_per_nanosecond == old(clock).clocks_per_nanosecond,
        final(clock).pit_divider == old(clock).pit_divider,
{
    clock.last_rtc_update = clock.pit_ticks;
}

/// The cycle budget for a busy wait of `nanoseconds`: the embedder spins,
/// halting between polls, until the cycle counter has advanced by the
/// returned amount.
pub fn nanowait(clock: &Clock, nanoseconds: u64) -> (delta: u64)
    requires
        nanoseconds * clock.clocks_per_nanosecond <= u64::MAX,
    ensures
        delta == nanoseconds * clock.clocks_per_nanosecond,
{
    nanoseconds * clock.clocks_per_nanosecond
}

/// Whether a sleep that began at tick `start_ticks` and spans
/// `duration_ticks` has elapsed: the sleep syscall re-enables interrupts
/// and re-polls this until it answers yes.
pub fn sleep_done(clock: &Clock, start_ticks: u64, duration_ticks: u64) -> (r: bool)
    ensures
        r == (clock.pit_ticks >= start_ticks + duration_ticks),
{
    clock.pit_ticks >= start_ticks && clock.pit_ticks - start_ticks >= duration_ticks
}

} // verus!
