//! Whether pulls are counted.

use vstd::prelude::*;

verus! {

/// Where a served pull is counted, or that none is.
#[derive(Debug)]
pub struct PullCounters {
    enabled: bool,
}

impl PullCounters {
    /// Whether a pull is counted.
    pub closed spec fn spec_enabled(&self) -> bool {
        self.enabled
    }

    /// A counter that counts.
    pub fn new() -> (r: PullCounters)
        ensures
            r.spec_enabled(),
    {
        PullCounters { enabled: true }
    }

    /// A counter that discards everything.
    pub fn disabled() -> (r: PullCounters)
        ensures
            !r.spec_enabled(),
    {
        PullCounters { enabled: false }
    }

    /// Whether a pull is counted.
    pub fn is_enabled(&self) -> (r: bool)
        ensures
            r == self.spec_enabled(),
    {
        self.enabled
    }
}

/// A pull is counted exactly where the counter is one that counts.
pub proof fn law_only_a_counter_that_counts_counts(
    counting: PullCounters,
    discarding: PullCounters,
    a: bool,
    b: bool,
)
    requires
        call_ensures(PullCounters::new, (), counting),
        call_ensures(PullCounters::disabled, (), discarding),
        call_ensures(PullCounters::is_enabled, (&counting,), a),
        call_ensures(PullCounters::is_enabled, (&discarding,), b),
    ensures
        a,
        !b,
{
}

} // verus!
