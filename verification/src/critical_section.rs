use vstd::prelude::*;

verus! {

/// The token that [`CriticalSection::acquire`] returns: it records the
/// nesting depth on entry, and releasing it restores exactly that state.
#[derive(Clone, Copy, PartialEq, Eq, Structural, Debug)]
pub struct RestoreToken {
    level: u64,
}

impl RestoreToken {
    pub closed spec fn level(self) -> u64 {
        self.level
    }
}

/// The interrupt gate: the process-wide mutual-exclusion primitive backed
/// by the host's disable-re-entrancy and enable-re-entrancy calls.  While
/// held, the host suppresses re-entrant calls into the guest, so the
/// holder may touch the work queue and task slots freely.  Acquire and
/// release must nest in strictly stack-like order, and the critical
/// section never spans a suspension point: it wraps only the short queue
/// and slot operations.
pub struct CriticalSection {
    depth: u64,
}

impl CriticalSection {
    /// Current nesting depth; zero means re-entrancy is enabled.
    pub closed spec fn depth(self) -> u64 {
        self.depth
    }

    /// A fresh gate: re-entrancy enabled, nothing held.
    pub fn new() -> (cs: CriticalSection)
        ensures
            cs.depth() == 0,
    {
        CriticalSection { depth: 0 }
    }

    /// Whether anyone currently holds the critical section.
    pub fn is_held(&self) -> (b: bool)
        ensures
            b == (self.depth() > 0),
    {
        self.depth > 0
    }

    /// Disables re-entrancy and returns the token that restores the prior
    /// state.  Nested acquisition is allowed; the host call is infallible.
    pub fn acquire(&mut self) -> (t: RestoreToken)
        requires
            old(self).depth() < u64::MAX,
        ensures
            final(self).depth() == old(self).depth() + 1,
            t.level() == old(self).depth(),
    {
        let t = RestoreToken { level: self.depth };
        self.depth = self.depth + 1;
        t
    }

    /// Consumes a restore token and restores the state it recorded.
    /// Tokens must be released in strictly stack-like order: only the most
    /// recently issued live token is accepted.
    pub fn release(&mut self, t: RestoreToken)
        requires
            old(self).depth() == t.level() + 1,
        ensures
            final(self).depth() == t.level(),
    {
        self.depth = self.depth - 1;
    }
}

} // verus!
