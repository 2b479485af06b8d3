//! The scheduler's side of process creation: the global run set of live
//! contexts and the non-reentrant no-interrupts critical section under
//! which the run set is mutated. The loader only ever appends.

use vstd::prelude::*;
use crate::context::Context;

verus! {

/// The scheduler state the loader touches: the run set, whether it has
/// been initialized, and the interrupt-enable flag the critical section
/// toggles.
pub struct Scheduler {
    /// The global run set of live contexts.
    pub run: Vec<Context>,
    /// Whether the run set exists yet; before scheduler initialization an
    /// append is a defensive no-op.
    pub initialized: bool,
    /// Whether interrupts (preemption) are currently enabled.
    pub ints_enabled: bool,
}

impl Scheduler {
    /// An initialized scheduler with an empty run set and preemption on.
    pub fn new() -> (s: Scheduler)
        ensures
            s.run@.len() == 0,
            s.initialized,
            s.ints_enabled,
    {
        Scheduler { run: Vec::new(), initialized: true, ints_enabled: true }
    }

    /// Enters the critical section: suppresses interrupts and reports the
    /// prior interrupt-enable state so it can be restored exactly.
    pub fn start_no_ints(&mut self) -> (prior: bool)
        ensures
            prior == old(self).ints_enabled,
            !final(self).ints_enabled,
            final(self).run@ == old(self).run@,
            final(self).initialized == old(self).initialized,
    {
        let prior = self.ints_enabled;
        self.ints_enabled = false;
        prior
    }

    /// Leaves the critical section: restores the saved interrupt-enable
    /// state exactly, rather than unconditionally re-enabling, so that
    /// nested critical sections compose.
    pub fn end_no_ints(&mut self, prior: bool)
        ensures
            final(self).ints_enabled == prior,
            final(self).run@ == old(self).run@,
            final(self).initialized == old(self).initialized,
    {
        self.ints_enabled = prior;
    }

    /// Appends a context to the run set under the critical section. The
    /// interrupt-enable state is restored to what it was before the call;
    /// before scheduler initialization the append is a no-op.
    pub fn register(&mut self, context: Context)
        ensures
            final(self).ints_enabled == old(self).ints_enabled,
            final(self).initialized == old(self).initialized,
            old(self).initialized ==> final(self).run@ == old(self).run@.push(context),
            !old(self).initialized ==> final(self).run@ == old(self).run@,
    {
        let prior = self.start_no_ints();
        if self.initialized {
            self.run.push(context);
        }
        self.end_no_ints(prior);
    }
}

} // verus!
