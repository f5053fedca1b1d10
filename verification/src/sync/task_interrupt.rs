//! # Task interrupt
//!
//! The state of an interruptible sleep: a flag that is raised once to wake
//! every sleeper and never lowered again. The waiting itself (a lock and a
//! condition variable shared by all clones) is done by the caller, which
//! asks this state what a sleep that ended reports.

use vstd::prelude::*;

verus! {

/// Whether a task was asked to stop sleeping.
pub struct TaskInterrupt {
    interrupted: bool,
}

impl TaskInterrupt {
    /// Has the task been interrupted?
    pub closed spec fn is_interrupted(&self) -> bool {
        self.interrupted
    }

    /// A task that nobody interrupted yet.
    pub fn new() -> (r: TaskInterrupt)
        ensures
            !r.is_interrupted(),
    {
        TaskInterrupt { interrupted: false }
    }

    /// Interrupt the task: every sleep that ends from now on reports that
    /// it was interrupted.
    pub fn interrupt(&mut self)
        ensures
            final(self).is_interrupted(),
    {
        self.interrupted = true;
    }

    /// What a sleep that just ended reports: `true` when it ran for its
    /// whole time, `false` when it was interrupted.
    pub fn sleep_timed_out(&self) -> (r: bool)
        ensures
            r == !self.is_interrupted(),
    {
        !self.interrupted
    }
}

} // verus!
