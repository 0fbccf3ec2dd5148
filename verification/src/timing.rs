//! The emulated clock, and the cycle budget that a stretch of real time buys.

use vstd::prelude::*;

verus! {

/// Nominal clock frequency of the emulated processor, in cycles per second.
pub const CPU_FREQUENCY: u64 = 1_789_773;

/// Microseconds in one second.
pub const MICROSECONDS_PER_SECOND: u64 = 1_000_000;

/// Emulated cycles granted per microsecond of real time: the whole cycles
/// of the clock in one microsecond, plus one, so that truncation never
/// leaves the emulation behind the clock.
pub const CYCLES_PER_MICROSECOND: u64 = CPU_FREQUENCY / MICROSECONDS_PER_SECOND + 1;

/// The number of cycles that `elapsed_microseconds` of real time buys.
pub open spec fn cycle_budget(elapsed_microseconds: u32) -> nat {
    (elapsed_microseconds * CYCLES_PER_MICROSECOND) as nat
}

/// Computes the cycle budget of a stretch of real time.
pub fn budget_for(elapsed_microseconds: u32) -> (budget: u64)
    ensures
        budget == cycle_budget(elapsed_microseconds),
{
    assert(CYCLES_PER_MICROSECOND == 2);
    elapsed_microseconds as u64 * CYCLES_PER_MICROSECOND
}

/// The budget is two cycles for each microsecond.
pub proof fn lemma_cycle_budget_value(elapsed_microseconds: u32)
    ensures
        CYCLES_PER_MICROSECOND == 2,
        cycle_budget(elapsed_microseconds) == 2 * elapsed_microseconds,
        cycle_budget(elapsed_microseconds) <= 2 * u32::MAX,
{
}

/// The budget never falls short of the cycles that the emulated clock
/// really ticks in the same time.
pub proof fn lemma_budget_covers_clock(elapsed_microseconds: u32)
    ensures
        cycle_budget(elapsed_microseconds) * MICROSECONDS_PER_SECOND >= elapsed_microseconds
            * CPU_FREQUENCY,
{
    assert(CYCLES_PER_MICROSECOND == 2);
    assert(2 * elapsed_microseconds * 1_000_000 >= elapsed_microseconds * 1_789_773)
        by (nonlinear_arith);
}

/// A longer stretch of time never buys a smaller budget.
pub proof fn lemma_budget_monotonic(shorter: u32, longer: u32)
    requires
        shorter <= longer,
    ensures
        cycle_budget(shorter) <= cycle_budget(longer),
{
    assert(CYCLES_PER_MICROSECOND == 2);
}

} // verus!
