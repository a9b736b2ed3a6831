use vstd::prelude::*;

verus! {

/// Nanoseconds in a second.
pub const NANOS_PER_SEC: u64 = 1_000_000_000;

/// Frequency of the timer and render tick.
pub const TIMER_HZ: u64 = 60;

/// Whether tick number `done + 1` of the 60 Hz clock, due `(done + 1) / 60`
/// seconds after the start, has come `elapsed` nanoseconds after the start.
pub open spec fn tick_due(done: nat, elapsed: nat) -> bool {
    elapsed * TIMER_HZ >= (done + 1) * NANOS_PER_SEC
}

/// Decides, at each wakeup of the instruction clock, whether the 60 Hz tick
/// runs first. The last tick is taken to have happened exactly `ticks / 60`
/// seconds after the start, so that late wakeups do not accumulate drift.
pub struct Scheduler {
    ticks: u64,
}

impl Scheduler {
    /// Number of 60 Hz ticks run so far.
    pub closed spec fn ticks_done(&self) -> nat {
        self.ticks as nat
    }

    pub fn new() -> (r: Scheduler)
        ensures
            r.ticks_done() == 0,
    {
        Scheduler { ticks: 0 }
    }

    pub fn ticks(&self) -> (r: u64)
        ensures
            r == self.ticks_done(),
    {
        self.ticks
    }

    /// A wakeup `elapsed_nanos` after the start: returns whether the 60 Hz
    /// tick is due and runs now, before the instruction cycle. At most one
    /// tick runs per wakeup.
    pub fn on_wakeup(&mut self, elapsed_nanos: u64) -> (run_tick: bool)
        ensures
            run_tick == tick_due(old(self).ticks_done(), elapsed_nanos as nat),
            final(self).ticks_done() == old(self).ticks_done() + if run_tick { 1nat } else { 0nat },
    {
        let next = self.ticks as u128 + 1;
        assert(next * NANOS_PER_SEC as u128 <= 0x1_0000_0000_0000_0000u128 * NANOS_PER_SEC as u128)
            by (nonlinear_arith)
            requires
                next <= 0x1_0000_0000_0000_0000u128,
        ;
        let elapsed = elapsed_nanos as u128;
        assert(elapsed * TIMER_HZ as u128 <= 0x1_0000_0000_0000_0000u128 * TIMER_HZ as u128)
            by (nonlinear_arith)
            requires
                elapsed <= 0x1_0000_0000_0000_0000u128,
        ;
        let due = elapsed * TIMER_HZ as u128 >= next * NANOS_PER_SEC as u128;
        if due {
            assert(next < 0x1_0000_0000_0000_0000u128) by (nonlinear_arith)
                requires
                    elapsed < 0x1_0000_0000_0000_0000u128,
                    elapsed * 60 >= next * 1_000_000_000,
            ;
            self.ticks = self.ticks + 1;
        }
        due
    }
}

/// The period of an instruction clock of `frequency` cycles per second, in
/// whole nanoseconds (rounded down); `None` for a frequency of 0.
pub fn cycle_period_nanos(frequency: u32) -> (r: Option<u64>)
    ensures
        r is None <==> frequency == 0,
        r matches Some(p) ==> p as int == NANOS_PER_SEC as int / frequency as int,
{
    if frequency == 0 {
        None
    } else {
        Some(NANOS_PER_SEC / frequency as u64)
    }
}

} // verus!
