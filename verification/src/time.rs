//! Spans of time and points on a monotonic clock, as plain counts.

use vstd::prelude::*;

verus! {

/// Nanoseconds in a second.
pub const NANOS_PER_SEC: u32 = 1_000_000_000;

/// A span of time: whole seconds and the nanoseconds beyond them.
#[derive(Clone, Copy, Debug, PartialEq, Eq, Structural)]
pub struct Duration {
    pub secs: u64,
    pub nanos: u32,
}

impl Duration {
    /// The nanoseconds stay below a whole second, so equal spans have equal fields.
    pub open spec fn wf(self) -> bool {
        self.nanos < NANOS_PER_SEC
    }

    /// The whole span in nanoseconds.
    pub open spec fn total(self) -> nat {
        self.secs as nat * 1_000_000_000 + self.nanos as nat
    }

    pub fn from_secs(secs: u64) -> (d: Duration)
        ensures
            d == (Duration { secs, nanos: 0 }),
            d.wf(),
    {
        Duration { secs, nanos: 0 }
    }

    /// The whole seconds in the span.
    pub fn as_secs(&self) -> (secs: u64)
        ensures
            secs == self.secs,
            self.wf() ==> secs == self.total() / 1_000_000_000,
    {
        self.secs
    }

    /// The span in nanoseconds.
    pub fn as_nanos(&self) -> (n: u128)
        ensures
            n == self.total(),
            n == self.secs * 1_000_000_000 + self.nanos,
    {
        self.secs as u128 * 1_000_000_000 + self.nanos as u128
    }

    /// The shorter of two spans.
    pub fn min(self, other: Duration) -> (d: Duration)
        ensures
            d == if other.total() < self.total() {
                other
            } else {
                self
            },
    {
        if other.as_nanos() < self.as_nanos() {
            other
        } else {
            self
        }
    }
}

/// A point on a monotonic clock: the nanoseconds since some fixed origin.
#[derive(Clone, Copy, Debug, PartialEq, Eq, Structural)]
pub struct Instant {
    pub nanos: u128,
}

impl Instant {
    /// The point `d` after this one, or `None` where the clock cannot count that far.
    pub fn checked_add(self, d: Duration) -> (later: Option<Instant>)
        ensures
            later == if self.nanos + d.total() <= u128::MAX {
                Some(Instant { nanos: (self.nanos + d.total()) as u128 })
            } else {
                None
            },
            later matches Some(t) ==> t.nanos == self.nanos + d.secs * 1_000_000_000 + d.nanos,
            later is None ==> self.nanos + d.secs * 1_000_000_000 + d.nanos > u128::MAX,
    {
        match self.nanos.checked_add(d.as_nanos()) {
            Some(nanos) => Some(Instant { nanos }),
            None => None,
        }
    }

    /// The nanoseconds from `earlier` to this point, and none when it lies ahead.
    pub fn nanos_since(self, earlier: Instant) -> (n: u128)
        ensures
            n == if earlier.nanos <= self.nanos {
                self.nanos - earlier.nanos
            } else {
                0
            },
    {
        self.nanos.saturating_sub(earlier.nanos)
    }
}

/// A span is its seconds and the nanoseconds beyond them, fewer than a second's.
pub proof fn a_span_is_its_seconds_and_nanoseconds(d: Duration)
    ensures
        d.total() == d.secs * 1_000_000_000 + d.nanos,
        d.wf() <==> d.nanos < 1_000_000_000,
{
}

} // verus!
