//! The programmable interval timer: the values written to its ports to make it tick at
//! a given frequency, and the tick count a delay runs to.
use vstd::prelude::*;

verus! {

/// The counter port of timer 0.
pub const TIMER0_CNTR: u16 = 0x40;
/// The counter port of timer 1.
pub const TIMER1_CNTR: u16 = 0x41;
/// The counter port of timer 2.
pub const TIMER2_CNTR: u16 = 0x42;
/// The control port.
pub const TIMER_CTRL: u16 = 0x43;

/// Selects timer 0 in a control word.
pub const TIMER0: u8 = 0x00;
/// Selects timer 1 in a control word.
pub const TIMER1: u8 = 0x40;
/// Selects timer 2 in a control word.
pub const TIMER2: u8 = 0x80;

/// Latches the count.
pub const TIMER_LATCH: u8 = 0x00;
/// Accesses the low byte of the count.
pub const TIMER_LSB: u8 = 0x10;
/// Accesses the high byte of the count.
pub const TIMER_MSB: u8 = 0x20;
/// Accesses the low byte, then the high byte.
pub const TIMER_WHOLE: u8 = 0x30;

pub const TIMER_MODE0: u8 = 0x00;
pub const TIMER_MODE1: u8 = 0x02;
/// Rate generator.
pub const TIMER_MODE2: u8 = 0x04;
pub const TIMER_MODE3: u8 = 0x06;
pub const TIMER_MODE4: u8 = 0x08;
pub const TIMER_MODE5: u8 = 0x0A;

/// A binary count.
pub const TIMER_BIN16: u8 = 0;
/// A decimal count.
pub const TIMER_BCD: u8 = 1;

/// The timer's input clock, in Hz.
pub const PIT_FREQ: u32 = 0x1234DD;

pub const MICROS_PER_SECOND: u64 = 1_000_000;

/// The frequency the kernel runs the timer at, in Hz.
pub const TICK_FREQUENCY: u32 = 200;

/// The control word that programs timer 0 as a rate generator with a binary count,
/// written low byte first.
pub fn rate_generator_control() -> (r: u8)
    ensures
        r == 0x34,
{
    let r = TIMER0 | TIMER_WHOLE | TIMER_MODE2 | TIMER_BIN16;
    assert(0x00u8 | 0x30u8 | 0x04u8 | 0u8 == 0x34u8) by (bit_vector);
    r
}

/// The count that makes the timer tick `freq` times a second, cut to the counter's 16
/// bits.
pub fn timer_divisor(freq: u32) -> (r: u16)
    requires
        freq > 0,
    ensures
        r == (PIT_FREQ / freq) % 0x1_0000,
{
    let d = PIT_FREQ / freq;
    assert(d as u16 == d % 0x1_0000) by (bit_vector);
    d as u16
}

/// The low and the high byte of a count, in the order they are written.
pub fn divisor_bytes(divisor: u16) -> (r: (u8, u8))
    ensures
        r.0 == divisor % 256,
        r.1 == divisor / 256,
{
    let lsb = (divisor & 0xFF) as u8;
    let msb = (divisor >> 8) as u8;
    assert((divisor & 0xFF) as u8 == divisor % 256 && (divisor >> 8) as u8 == divisor / 256)
        by (bit_vector);
    (lsb, msb)
}

/// The tick count at which a delay of `micros` microseconds that starts at tick
/// `start_ticks` ends, with the timer ticking `freq` times a second.
pub fn delay_end_ticks(start_ticks: u64, micros: u128, freq: u64) -> (r: u64)
    requires
        micros * freq <= u128::MAX,
        start_ticks + micros * freq / (MICROS_PER_SECOND as int) <= u64::MAX,
    ensures
        r == start_ticks + micros * freq / (MICROS_PER_SECOND as int),
{
    let ticks = micros * freq as u128 / MICROS_PER_SECOND as u128;
    start_ticks + ticks as u64
}

} // verus!
