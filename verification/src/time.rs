//! Spans and points of time, counted in nanoseconds.

use vstd::prelude::*;

verus! {

/// Nanoseconds in one millisecond.
pub const NANOS_PER_MILLI: u128 = 1_000_000;

/// Nanoseconds in one second.
pub const NANOS_PER_SEC: u128 = 1_000_000_000;

/// A span of time.
#[derive(Debug, Clone, Copy, PartialEq, Eq, Structural, Hash)]
pub struct Duration {
    /// Length of the span in nanoseconds.
    pub nanos: u128,
}

impl Default for Duration {
    fn default() -> (r: Duration)
        ensures
            r.nanos == 0,
    {
        Duration { nanos: 0 }
    }
}

impl Duration {
    /// A span of whole seconds.
    pub fn from_secs(secs: u64) -> (r: Duration)
        ensures
            r.nanos == secs * NANOS_PER_SEC,
    {
        Duration { nanos: secs as u128 * NANOS_PER_SEC }
    }

    /// A span of whole milliseconds.
    pub fn from_millis(millis: u64) -> (r: Duration)
        ensures
            r.nanos == millis * NANOS_PER_MILLI,
    {
        Duration { nanos: millis as u128 * NANOS_PER_MILLI }
    }
}

/// A point on a clock that never runs backwards, measured from an origin that
/// the owner of the clock chooses.
#[derive(Debug, Clone, Copy, PartialEq, Eq, Structural, Hash)]
pub struct Instant {
    /// Nanoseconds since the origin.
    pub nanos: u128,
}

impl Instant {
    /// Whether `span` after this point still lies on the clock.
    pub open spec fn has_room(&self, span: Duration) -> bool {
        self.nanos + span.nanos <= u128::MAX
    }

    /// The point that lies `span` after this one.
    pub fn after(&self, span: Duration) -> (r: Instant)
        requires
            self.has_room(span),
        ensures
            r.nanos == self.nanos + span.nanos,
    {
        Instant { nanos: self.nanos + span.nanos }
    }

    /// The span from this point to `now`; zero if `now` lies before it.
    pub fn elapsed(&self, now: Instant) -> (r: Duration)
        ensures
            r.nanos == (if now.nanos >= self.nanos {
                now.nanos - self.nanos
            } else {
                0
            }),
    {
        if now.nanos >= self.nanos {
            Duration { nanos: now.nanos - self.nanos }
        } else {
            Duration { nanos: 0 }
        }
    }

    /// Whether more than `span` has passed since this point at `now`.
    pub open spec fn spec_older_than(&self, span: Duration, now: Instant) -> bool {
        self.nanos + span.nanos < now.nanos
    }

    /// Whether more than `span` has passed since this point at `now`.
    pub fn older_than(&self, span: Duration, now: Instant) -> (r: bool)
        ensures
            r == self.spec_older_than(span, now),
    {
        now.nanos >= span.nanos && self.nanos < now.nanos - span.nanos
    }
}

/// A point is older than a span if and only if more time than the span lies
/// between it and now: a span that has just passed does not count, and a point
/// that is yet to come is not old.
pub proof fn law_age_is_the_time_between(point: Instant, span: Duration, now: Instant)
    ensures
        point.spec_older_than(span, now) <==> now.nanos - point.nanos > span.nanos,
        point.has_room(span) ==> !point.spec_older_than(
            span,
            Instant { nanos: (point.nanos + span.nanos) as u128 },
        ),
        now.nanos <= point.nanos ==> !point.spec_older_than(span, now),
{
}

} // verus!
