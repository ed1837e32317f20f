//! Adaptive busy-wait with geometric growth, then an OS yield.
//!
//! Wherever a tight poll on a ring would otherwise saturate a core, the
//! poller keeps a [`SpinWait`]: each failed poll pauses the CPU for a
//! geometrically growing number of hint instructions, and once the counter
//! reaches its cap the poller yields the OS thread instead.

use vstd::prelude::*;

verus! {

/// Once the counter has grown to this value, `spin` yields the OS thread
/// and keeps the counter capped here.
pub const SPIN_YIELD_AT: u32 = 10;

/// Relies on `nix::sched::sched_yield`: asks the scheduler to run another
/// thread; it has no effect on any value of this process.
#[verifier::external_body]
fn yield_thread() {
    let _ = nix::sched::sched_yield();
}

/// Relies on `core::hint::spin_loop`: a CPU pause hint with no effect on
/// any value of this process.
#[verifier::external_body]
fn cpu_relax() {
    core::hint::spin_loop();
}

/// Adaptive spin state: a per-call counter, incremented on each failed
/// poll, reset on progress.
pub struct SpinWait {
    counter: u32,
}

impl Default for SpinWait {
    /// A fresh spin state.
    fn default() -> (s: SpinWait)
        ensures
            s.counter() == 0,
            s.wf(),
    {
        SpinWait::new()
    }
}

impl SpinWait {
    /// The current value of the spin counter.
    pub closed spec fn counter(self) -> u32 {
        self.counter
    }

    /// The counter never grows past its cap.
    pub closed spec fn wf(self) -> bool {
        self.counter <= SPIN_YIELD_AT
    }

    /// A fresh spin state, ready for the first poll.
    pub fn new() -> (s: SpinWait)
        ensures
            s.counter() == 0,
            s.wf(),
    {
        SpinWait { counter: 0 }
    }

    /// The counter as a value.
    pub fn count(&self) -> (c: u32)
        ensures
            c == self.counter(),
    {
        self.counter
    }

    /// One failed poll: grow the counter and pause `2^counter` times, or,
    /// once the counter has reached its cap, yield the OS thread.
    pub fn spin(&mut self)
        requires
            old(self).wf(),
        ensures
            old(self).counter() < SPIN_YIELD_AT - 1 ==> final(self).counter() == old(
                self,
            ).counter() + 1,
            old(self).counter() >= SPIN_YIELD_AT - 1 ==> final(self).counter() == SPIN_YIELD_AT,
            final(self).wf(),
    {
        if self.counter < SPIN_YIELD_AT - 1 {
            self.counter = self.counter + 1;
            let rounds: u32 = 1u32 << self.counter;
            let mut i: u32 = 0;
            while i < rounds
                invariant
                    i <= rounds,
                decreases rounds - i,
            {
                cpu_relax();
                i = i + 1;
            }
        } else {
            self.counter = SPIN_YIELD_AT;
            yield_thread();
        }
    }

    /// Progress was made: the next failed poll starts the backoff over.
    pub fn reset(&mut self)
        ensures
            final(self).counter() == 0,
            final(self).wf(),
    {
        self.counter = 0;
    }
}

} // verus!
