//! Readings of a monotonic clock.
use vstd::prelude::*;

verus! {

/// Nanoseconds in one second.
pub const NANOS_PER_SEC: u64 = 1_000_000_000;

/// One reading of a monotonic clock, in nanoseconds since an origin that the
/// caller fixes once per process.
#[derive(Debug, Clone, Copy, PartialEq, Eq, Structural)]
pub struct Moment {
    /// Nanoseconds since the origin.
    pub nanos: u64,
}

impl Moment {
    /// Nanoseconds from `earlier` to this reading; zero where `earlier` is
    /// the later of the two.
    pub open spec fn since_spec(self, earlier: Moment) -> nat {
        if self.nanos >= earlier.nanos {
            (self.nanos - earlier.nanos) as nat
        } else {
            0
        }
    }

    /// Nanoseconds from `earlier` to this reading, never negative.
    pub fn since(&self, earlier: Moment) -> (r: u64)
        ensures
            r == self.since_spec(earlier),
    {
        if self.nanos >= earlier.nanos {
            self.nanos - earlier.nanos
        } else {
            0
        }
    }
}

/// Time does not run backwards: from an earlier reading to a later one it is
/// their difference, and to an earlier one nothing.
pub proof fn time_does_not_run_backwards(a: Moment, b: Moment, r: u64, back: u64)
    requires
        call_ensures(Moment::since, (&b, a), r),
        call_ensures(Moment::since, (&a, b), back),
        a.nanos <= b.nanos,
    ensures
        a.nanos + r == b.nanos,
        back == 0,
{
}

} // verus!
