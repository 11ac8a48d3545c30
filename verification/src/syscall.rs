//! Numbered-syscall dispatch: the function the trampoline calls once the
//! full register state has been saved. Only timing-related calls exist.

use vstd::prelude::*;

use crate::rtc::Clock;

verus! {

/// Re-enables interrupts, busy-waits on the tick counter until the
/// requested duration elapses, then disables interrupts again; returns 0.
/// The wait itself is the embedder's poll loop over `rtc::sleep_done`.
pub const SYSCALL_SLEEP: u64 = 0;

/// A pure read of the tick counter.
pub const SYSCALL_UPTIME: u64 = 1;

/// A pure read of the tick count at the last real-time-clock update.
pub const SYSCALL_REALTIME: u64 = 2;

/// What `dispatcher` returns for each syscall number: the two time reads
/// answer from the clock, sleep answers 0 once its wait is over, and an
/// unknown number answers the all-ones error value.
pub open spec fn spec_dispatch(clock: Clock, n: u64, arg1: u64, arg2: u64, arg3: u64) -> u64 {
    if n == SYSCALL_SLEEP {
        0
    } else if n == SYSCALL_UPTIME {
        clock.pit_ticks
    } else if n == SYSCALL_REALTIME {
        clock.last_rtc_update
    } else {
        u64::MAX
    }
}

/// Looks up and invokes the numbered syscall. A syscall is observationally
/// a pure function call: its result is the only register-visible effect,
/// and the only state it reads is the clock.
pub fn dispatcher(clock: &Clock, n: u64, arg1: u64, arg2: u64, arg3: u64) -> (r: u64)
    ensures
        r == spec_dispatch(*clock, n, arg1, arg2, arg3),
{
    if n == SYSCALL_SLEEP {
        0
    } else if n == SYSCALL_UPTIME {
        clock.pit_ticks
    } else if n == SYSCALL_REALTIME {
        clock.last_rtc_update
    } else {
        u64::MAX
    }
}

} // verus!
