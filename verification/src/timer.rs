//! The timer of an interaction: how far a hover or press transition has run,
//! in nanoseconds, moved forward while the interaction lasts and backward
//! after it.
use vstd::prelude::*;

verus! {

/// The longest span of time that a `std::time::Duration` holds, in
/// nanoseconds.
pub const DURATION_MAX_NANOS: u128 = 18_446_744_073_709_551_615_999_999_999;

/// A timer that runs up to a maximum; both are spans of time in nanoseconds.
#[derive(Debug, Clone, Copy, PartialEq, Eq, Structural)]
pub struct InteractionTimer {
    elapsed: u128,
    max: u128,
}

impl InteractionTimer {
    /// The time that has run.
    pub closed spec fn elapsed_spec(self) -> nat {
        self.elapsed as nat
    }

    /// The time at which the timer stops.
    pub closed spec fn max_spec(self) -> nat {
        self.max as nat
    }

    /// Both spans fit in a `Duration`.
    pub open spec fn wf(self) -> bool {
        &&& self.elapsed_spec() <= DURATION_MAX_NANOS
        &&& self.max_spec() <= DURATION_MAX_NANOS
    }

    /// The time that has run after running forward by `delta`: the sum,
    /// or the maximum where the sum passes it, or no change where the sum
    /// does not fit in a `Duration`.
    pub open spec fn after_forward(self, delta: nat) -> nat {
        if self.elapsed_spec() + delta > DURATION_MAX_NANOS {
            self.elapsed_spec()
        } else if self.elapsed_spec() + delta <= self.max_spec() {
            self.elapsed_spec() + delta
        } else {
            self.max_spec()
        }
    }

    /// The time that has run after running backward by `delta`: the
    /// difference, or zero where `delta` is the longer.
    pub open spec fn after_backward(self, delta: nat) -> nat {
        if delta <= self.elapsed_spec() {
            (self.elapsed_spec() - delta) as nat
        } else {
            0
        }
    }

    /// A timer that has not run yet and stops at `max`.
    pub fn new(max: u128) -> (r: InteractionTimer)
        requires
            max <= DURATION_MAX_NANOS,
        ensures
            r.wf(),
            r.elapsed_spec() == 0,
            r.max_spec() == max,
    {
        InteractionTimer { elapsed: 0, max }
    }

    /// The time that has run.
    pub fn elapsed(&self) -> (r: u128)
        ensures
            r == self.elapsed_spec(),
    {
        self.elapsed
    }

    /// The time at which the timer stops.
    pub fn max(&self) -> (r: u128)
        ensures
            r == self.max_spec(),
    {
        self.max
    }

    /// Runs the timer forward by `delta`, stopping at the maximum. Where the
    /// sum does not fit in a `Duration` the timer stays where it is.
    pub fn forward(&mut self, delta: u128)
        requires
            old(self).wf(),
            delta <= DURATION_MAX_NANOS,
        ensures
            final(self).wf(),
            final(self).max_spec() == old(self).max_spec(),
            final(self).elapsed_spec() == old(self).after_forward(delta as nat),
    {
        if delta <= DURATION_MAX_NANOS - self.elapsed {
            let sum = self.elapsed + delta;
            self.elapsed = if sum <= self.max { sum } else { self.max };
        }
    }

    /// Runs the timer backward by `delta`, stopping at zero.
    pub fn backward(&mut self, delta: u128)
        requires
            old(self).wf(),
        ensures
            final(self).wf(),
            final(self).max_spec() == old(self).max_spec(),
            final(self).elapsed_spec() == old(self).after_backward(delta as nat),
    {
        self.elapsed = if delta <= self.elapsed { self.elapsed - delta } else { 0 };
    }
}

/// A timer never runs past its maximum: from a time within the maximum,
/// running forward or backward by any span stays within it.
pub proof fn law_timer_stays_within_max(t: InteractionTimer, delta: nat)
    requires
        t.wf(),
        t.elapsed_spec() <= t.max_spec(),
    ensures
        t.after_forward(delta) <= t.max_spec(),
        t.after_backward(delta) <= t.max_spec(),
{
}

} // verus!
