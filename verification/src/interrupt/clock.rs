//! The timer: a count of ticks, and the reschedule that each tick brings.

use crate::proc::context::ProcessContext;
use crate::proc::did_switch;
use crate::proc::manager::ProcessManager;
use crate::proc::switch;
use vstd::prelude::*;

verus! {

/// Counts timer interrupts.
pub struct Counter {
    ticks: u64,
}

impl Counter {
    /// The number of interrupts counted.
    pub closed spec fn ticks(&self) -> u64 {
        self.ticks
    }

    /// A counter at zero.
    pub fn new() -> (counter: Counter)
        ensures
            counter.ticks() == 0,
    {
        Counter { ticks: 0 }
    }
}

/// The number of interrupts counted so far.
pub fn read_counter(counter: &Counter) -> (ticks: u64)
    ensures
        ticks == counter.ticks(),
{
    counter.ticks
}

/// Counts one more interrupt and returns the new count.
pub fn inc_counter(counter: &mut Counter) -> (ticks: u64)
    requires
        old(counter).ticks() < u64::MAX,
    ensures
        ticks == old(counter).ticks() + 1,
        final(counter).ticks() == ticks,
{
    counter.ticks = counter.ticks + 1;
    counter.ticks
}

/// The timer interrupt: the interrupted process gives way to the next one;
/// see [`switch`].
pub fn clock(manager: &mut ProcessManager, context: &mut ProcessContext)
    requires
        old(manager).wf(),
        old(manager).proc(old(manager).current).inner.status is Running ==> old(manager).can_tick(),
    ensures
        final(manager).wf(),
        did_switch(*old(manager), *final(manager), *old(context), *final(context)),
{
    switch(manager, context);
}

} // verus!
