//! The interval timer and the system's tick counter.

use vstd::prelude::*;
use crate::interrupts::PortWrite;

verus! {

/// The frequency of the timer's oscillator in hertz.
pub const PIT_BASE_FREQUENCY: u32 = 1_193_182;

/// The ticks per second that the timer is set to: one tick is 10 ms.
pub const TIMER_FREQUENCY: u32 = 100;

/// The command port of the timer.
pub const PIT_COMMAND_PORT: u16 = 0x43;

/// The data port of the timer's channel 0.
pub const PIT_CHANNEL_0_PORT: u16 = 0x40;

/// The command that selects channel 0, both bytes, square wave.
pub const PIT_COMMAND: u8 = 0x36;

/// The writes that set the timer to `TIMER_FREQUENCY` ticks per second:
/// the command, then the low and the high byte of the divisor 11931.
pub fn init() -> (writes: Vec<PortWrite>)
    ensures
        writes@ == seq![
            PortWrite { port: PIT_COMMAND_PORT, value: PIT_COMMAND },
            PortWrite { port: PIT_CHANNEL_0_PORT, value: 0x9b },
            PortWrite { port: PIT_CHANNEL_0_PORT, value: 0x2e },
        ],
{
    let divisor: u32 = PIT_BASE_FREQUENCY / TIMER_FREQUENCY;
    assert(divisor == 11931);
    let low: u8 = (divisor & 0xFF) as u8;
    let high: u8 = ((divisor >> 8) & 0xFF) as u8;
    assert(low == 0x9b && high == 0x2e) by (bit_vector)
        requires
            divisor == 11931,
            low == (divisor & 0xFF) as u8,
            high == ((divisor >> 8) & 0xFF) as u8,
    ;
    let mut writes: Vec<PortWrite> = Vec::new();
    writes.push(PortWrite { port: PIT_COMMAND_PORT, value: PIT_COMMAND });
    writes.push(PortWrite { port: PIT_CHANNEL_0_PORT, value: low });
    writes.push(PortWrite { port: PIT_CHANNEL_0_PORT, value: high });
    assert(writes@ =~= seq![
        PortWrite { port: PIT_COMMAND_PORT, value: PIT_COMMAND },
        PortWrite { port: PIT_CHANNEL_0_PORT, value: 0x9b },
        PortWrite { port: PIT_CHANNEL_0_PORT, value: 0x2e },
    ]);
    writes
}

/// The ticks that `milliseconds` milliseconds take.
pub open spec fn spec_ticks_to_wait(milliseconds: u32) -> int {
    milliseconds * TIMER_FREQUENCY / 1000
}

/// The ticks that `milliseconds` milliseconds take.
pub fn ticks_to_wait(milliseconds: u32) -> (ticks: u32)
    requires
        milliseconds * TIMER_FREQUENCY <= u32::MAX,
    ensures
        ticks == spec_ticks_to_wait(milliseconds),
{
    milliseconds * TIMER_FREQUENCY / 1000
}

/// Whether a wait of `milliseconds` milliseconds that began at the tick
/// `start_tick` is over at the tick `now`. A busy wait reads the tick
/// counter until this holds.
pub fn sleep_busy(milliseconds: u32, start_tick: u64, now: u64) -> (done: bool)
    requires
        milliseconds * TIMER_FREQUENCY <= u32::MAX,
        start_tick + spec_ticks_to_wait(milliseconds) <= u64::MAX,
    ensures
        done == (now >= start_tick + spec_ticks_to_wait(milliseconds)),
{
    let target = start_tick + ticks_to_wait(milliseconds) as u64;
    now >= target
}

} // verus!
