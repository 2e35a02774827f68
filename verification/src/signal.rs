//! The wake signal between the pool and one worker.

use vstd::prelude::*;

verus! {

/// A latched wake flag. It starts lowered; raising it wakes the worker that
/// sleeps on it, and nothing lowers it again: once a worker has been woken it
/// polls its channel instead of going back to sleep.
#[derive(Debug)]
pub struct WakeSignal {
    raised: bool,
}

impl WakeSignal {
    /// Has the signal been raised?
    pub closed spec fn raised(&self) -> bool {
        self.raised
    }

    /// A lowered signal.
    pub fn new() -> (signal: WakeSignal)
        ensures
            !signal.raised(),
    {
        WakeSignal { raised: false }
    }

    /// Has the signal been raised?
    pub fn is_raised(&self) -> (raised: bool)
        ensures
            raised == self.raised(),
    {
        self.raised
    }

    /// Raises the signal. The result says whether a sleeping worker has to be
    /// notified: it does exactly when the signal was lowered before.
    pub fn raise(&mut self) -> (notify: bool)
        ensures
            final(self).raised(),
            notify == !old(self).raised(),
    {
        let notify = !self.raised;
        self.raised = true;
        notify
    }
}

} // verus!
