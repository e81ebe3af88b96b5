//! The 1 MHz monotonic time base built from a 16-bit timer: the count of
//! timer overflows (periods) extends the 16-bit counter to 64 bits, and the
//! compare channel raises the wake-up alarm.

use vstd::prelude::*;

verus! {

/// Greatest tick distance the 16-bit compare channel can arm directly.
pub const CC1_WINDOW: u64 = 0xFFFF;

/// Tick rate of the time base.
pub const TICK_HZ: u32 = 1_000_000;

/// How to program the compare alarm.
#[derive(Clone, Copy, Debug, PartialEq, Eq, Structural)]
pub enum AlarmPlan {
    /// No wake-up pending: disable the compare interrupt.
    Disarm,
    /// Load `compare` (the low 16 bits of the target tick); enable the
    /// compare interrupt iff `enable` (the target is due or within one
    /// counter period). A target further away is re-armed by the overflow
    /// interrupt as it approaches.
    Arm { compare: u16, enable: bool },
}

/// The 64-bit tick count of `period` full counter periods and counter value
/// `cnt`.
pub fn ticks(period: u32, cnt: u16) -> (r: u64)
    ensures
        r == period as int * 65536 + cnt as int,
{
    let r = ((period as u64) << 16) | (cnt as u64);
    assert(r == period as int * 65536 + cnt as int) by (bit_vector)
        requires r == ((period as u64) << 16) | (cnt as u64);
    r
}

/// A 64-bit reading is coherent when the period count did not change while
/// the counter was read (else the read is retried).
pub fn coherent(period_before: u32, period_after: u32) -> (r: bool)
    ensures
        r == (period_before == period_after),
{
    period_before == period_after
}

/// The alarm programming for a wake-up at tick `at` (`u64::MAX` = none),
/// given the current tick `now`.
pub fn alarm_plan(at: u64, now: u64) -> (r: AlarmPlan)
    ensures
        at == u64::MAX ==> r == AlarmPlan::Disarm,
        at != u64::MAX ==> r == (AlarmPlan::Arm {
            compare: (at % 65536) as u16,
            enable: at <= now || at - now <= CC1_WINDOW,
        }),
{
    if at == u64::MAX {
        return AlarmPlan::Disarm;
    }
    let compare = (at & 0xFFFF) as u16;
    assert(compare == at % 65536) by (bit_vector)
        requires compare == (at & 0xFFFF) as u16;
    let enable = at <= now || at - now <= CC1_WINDOW;
    AlarmPlan::Arm { compare, enable }
}

/// Input clock of a timer on APB1: PCLK1 when the APB1 prescaler is 1
/// (PCLK1 equals HCLK), twice PCLK1 otherwise.
pub fn tim2_input_hz(pclk1: u32, hclk: u32) -> (r: u32)
    requires
        pclk1 != hclk ==> pclk1 * 2 <= u32::MAX,
    ensures
        r == if pclk1 == hclk { pclk1 as int } else { pclk1 * 2 },
{
    if pclk1 == hclk {
        pclk1
    } else {
        pclk1 * 2
    }
}

/// Prescaler that divides the timer input `timer_clk_hz` down to 1 MHz:
/// `timer_clk_hz / 1 MHz − 1` (saturating at 0), truncated to the 16-bit
/// register.
pub fn prescaler(timer_clk_hz: u32) -> (r: u16)
    ensures
        r == (if timer_clk_hz / TICK_HZ >= 1 { timer_clk_hz / TICK_HZ - 1 } else { 0 }) % 65536,
{
    let d = (timer_clk_hz / TICK_HZ).saturating_sub(1);
    let r = (d & 0xFFFF) as u16;
    assert(r == d % 65536) by (bit_vector)
        requires r == (d & 0xFFFF) as u16;
    r
}

} // verus!
