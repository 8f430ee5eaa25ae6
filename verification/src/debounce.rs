//! Debouncing: at most one call waits at a time; a new one cancels the
//! one waiting. The host keeps the timers; this decides which to cancel.

use vstd::prelude::*;

verus! {

/// The state of a debouncer: how long a call waits, in milliseconds, and
/// the timer of the call waiting, if any.
pub struct Debouncer {
    timeout_ms: i32,
    pending: Option<i32>,
}

impl Debouncer {
    pub closed spec fn spec_timeout_ms(&self) -> i32 {
        self.timeout_ms
    }

    pub closed spec fn spec_pending(&self) -> Option<i32> {
        self.pending
    }

    /// A debouncer whose calls wait `timeout_ms` milliseconds; none waits.
    pub fn new(timeout_ms: i32) -> (r: Self)
        ensures
            r.spec_timeout_ms() == timeout_ms,
            r.spec_pending() is None,
    {
        Self { timeout_ms, pending: None }
    }

    /// How long a call waits.
    pub fn timeout_ms(&self) -> (r: i32)
        ensures
            r == self.spec_timeout_ms(),
    {
        self.timeout_ms
    }

    /// The timer of the call waiting, if any.
    pub fn pending(&self) -> (r: Option<i32>)
        ensures
            r == self.spec_pending(),
    {
        self.pending
    }

    /// Records that a call now waits on timer `timer`; returns the timer
    /// of the call it replaces, which is to be cancelled.
    pub fn debounce(&mut self, timer: i32) -> (r: Option<i32>)
        ensures
            r == old(self).spec_pending(),
            final(self).spec_pending() == Some(timer),
            final(self).spec_timeout_ms() == old(self).spec_timeout_ms(),
    {
        let previous = self.pending;
        self.pending = Some(timer);
        previous
    }

    /// Forgets the call waiting; returns its timer, which is to be
    /// cancelled.
    pub fn cancel(&mut self) -> (r: Option<i32>)
        ensures
            r == old(self).spec_pending(),
            final(self).spec_pending() is None,
            final(self).spec_timeout_ms() == old(self).spec_timeout_ms(),
    {
        let previous = self.pending;
        self.pending = None;
        previous
    }
}

} // verus!
