//! Timer arithmetic: converting `mtime` ticks to wall-clock units and
//! computing the deadline of the next timer interrupt.
use vstd::prelude::*;
use crate::config::CLOCK_FREQ;

verus! {

/// Timer interrupts per second.
pub const TICKS_PER_SEC: usize = 100;
/// Milliseconds per second.
pub const MSEC_PER_SEC: usize = 1000;
/// Microseconds per second.
pub const MICRO_PER_SEC: usize = 1000000;

/// The time in milliseconds that `ticks` of the `mtime` counter amount to.
pub fn get_time_ms(ticks: usize) -> (ms: usize)
    ensures
        ms == ticks / (CLOCK_FREQ / MSEC_PER_SEC),
        ms == ticks / 12500,
{
    ticks / (CLOCK_FREQ / MSEC_PER_SEC)
}

/// The time in microseconds that `ticks` of the `mtime` counter amount to.
pub fn get_time_us(ticks: usize) -> (us: usize)
    ensures
        us == ticks / (CLOCK_FREQ / MICRO_PER_SEC),
        us == ticks / 12,
{
    ticks / (CLOCK_FREQ / MICRO_PER_SEC)
}

/// The value of `mtime` at which the next timer interrupt is to fire, when
/// the counter reads `now`: one scheduling slice (`1 / TICKS_PER_SEC` of a
/// second) later.
pub fn set_next_trigger(now: usize) -> (deadline: usize)
    requires
        now + CLOCK_FREQ / TICKS_PER_SEC <= usize::MAX,
    ensures
        deadline == now + CLOCK_FREQ / TICKS_PER_SEC,
        deadline == now + 125000,
{
    now + CLOCK_FREQ / TICKS_PER_SEC
}

} // verus!
