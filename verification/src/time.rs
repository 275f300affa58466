//! Spans of time and points on a monotonic clock, counted in nanoseconds.

use vstd::prelude::*;

verus! {

/// The longest representable span: `u64::MAX` seconds and 999,999,999 nanoseconds.
pub const MAX_NANOS: u128 = 18_446_744_073_709_551_615_999_999_999;

/// A non-negative span of time with nanosecond resolution.
#[derive(Clone, Copy, Debug, PartialEq, Eq, PartialOrd, Ord, Hash, Structural)]
pub struct Duration {
    nanos: u128,
}

impl View for Duration {
    type V = nat;

    /// The span in nanoseconds.
    closed spec fn view(&self) -> nat {
        self.nanos as nat
    }
}

impl Duration {
    #[verifier::type_invariant]
    spec fn bounded(self) -> bool {
        self.nanos <= MAX_NANOS
    }

    /// Two spans with the same number of nanoseconds are the same span.
    pub proof fn lemma_ext(a: Duration, b: Duration)
        requires
            a@ == b@,
        ensures
            a == b,
    {
    }

    /// The empty span.
    pub fn zero() -> (d: Duration)
        ensures
            d@ == 0,
    {
        Duration { nanos: 0 }
    }

    /// The longest span.
    pub fn max() -> (d: Duration)
        ensures
            d@ == MAX_NANOS,
    {
        Duration { nanos: MAX_NANOS }
    }

    /// A span of seconds and nanoseconds.
    pub fn new(secs: u64, nanos: u32) -> (d: Duration)
        requires
            secs * 1_000_000_000 + nanos <= MAX_NANOS,
        ensures
            d@ == secs * 1_000_000_000 + nanos,
    {
        Duration { nanos: secs as u128 * 1_000_000_000u128 + nanos as u128 }
    }

    /// A span of whole seconds.
    pub fn from_secs(secs: u64) -> (d: Duration)
        ensures
            d@ == secs * 1_000_000_000,
    {
        Duration { nanos: secs as u128 * 1_000_000_000u128 }
    }

    /// A span of whole milliseconds.
    pub fn from_millis(millis: u64) -> (d: Duration)
        ensures
            d@ == millis * 1_000_000,
    {
        Duration { nanos: millis as u128 * 1_000_000u128 }
    }

    /// A span of nanoseconds.
    pub fn from_nanos(nanos: u64) -> (d: Duration)
        ensures
            d@ == nanos,
    {
        Duration { nanos: nanos as u128 }
    }

    /// The span of `nanos` nanoseconds, if it is representable.
    pub fn checked_from_nanos(nanos: u128) -> (d: Option<Duration>)
        ensures
            d is Some <==> nanos <= MAX_NANOS,
            d is Some ==> d->0@ == nanos,
    {
        if nanos <= MAX_NANOS {
            Some(Duration { nanos })
        } else {
            None
        }
    }

    /// The span in nanoseconds.
    pub fn as_nanos(&self) -> (n: u128)
        ensures
            n == self@,
            n <= MAX_NANOS,
    {
        proof {
            use_type_invariant(self);
        }
        self.nanos
    }

    /// The span in whole milliseconds, rounded down.
    pub fn as_millis(&self) -> (n: u128)
        ensures
            n == self@ / 1_000_000,
            n <= MAX_NANOS,
    {
        proof {
            use_type_invariant(self);
        }
        self.nanos / 1_000_000
    }

    /// The whole seconds of the span.
    pub fn as_secs(&self) -> (n: u64)
        ensures
            n == self@ / 1_000_000_000,
    {
        proof {
            use_type_invariant(self);
        }
        (self.nanos / 1_000_000_000) as u64
    }

    /// The nanoseconds beyond the whole seconds of the span.
    pub fn subsec_nanos(&self) -> (n: u32)
        ensures
            n == self@ % 1_000_000_000,
    {
        (self.nanos % 1_000_000_000) as u32
    }

    /// Whether the span is empty.
    pub fn is_zero(&self) -> (b: bool)
        ensures
            b <==> self@ == 0,
    {
        self.nanos == 0
    }

    /// The sum of two spans, if it is representable.
    pub fn checked_add(self, other: Duration) -> (sum: Option<Duration>)
        ensures
            sum is Some <==> self@ + other@ <= MAX_NANOS,
            sum is Some ==> sum->0@ == self@ + other@,
    {
        proof {
            use_type_invariant(&self);
            use_type_invariant(&other);
        }
        Self::checked_from_nanos(self.nanos + other.nanos)
    }

    /// The difference of two spans, if it is not negative.
    pub fn checked_sub(self, other: Duration) -> (difference: Option<Duration>)
        ensures
            difference is Some <==> other@ <= self@,
            difference is Some ==> difference->0@ == self@ - other@,
    {
        proof {
            use_type_invariant(&self);
        }
        if other.nanos <= self.nanos {
            Some(Duration { nanos: self.nanos - other.nanos })
        } else {
            None
        }
    }

    /// The difference of two spans, or the empty span where it would be negative.
    pub fn saturating_sub(self, other: Duration) -> (difference: Duration)
        ensures
            difference@ == if other@ <= self@ {
                (self@ - other@) as nat
            } else {
                0
            },
    {
        match self.checked_sub(other) {
            Some(difference) => difference,
            None => Duration::zero(),
        }
    }

    /// The span taken `factor` times, if it is representable.
    pub fn checked_mul(self, factor: u32) -> (product: Option<Duration>)
        ensures
            product is Some <==> self@ * factor <= MAX_NANOS,
            product is Some ==> product->0@ == self@ * factor,
    {
        proof {
            use_type_invariant(&self);
            let a = self.nanos as int;
            let b = factor as int;
            assert(a * b <= 18_446_744_073_709_551_615_999_999_999 * 4_294_967_295)
                by (nonlinear_arith)
                requires
                    0 <= a <= 18_446_744_073_709_551_615_999_999_999,
                    0 <= b <= 4_294_967_295,
            ;
            assert(a * b >= 0) by (nonlinear_arith)
                requires
                    0 <= a,
                    0 <= b,
            ;
        }
        Self::checked_from_nanos(self.nanos * factor as u128)
    }
}

/// A point on a monotonic clock, as the span since the origin of that clock.
#[derive(Clone, Copy, Debug, PartialEq, Eq, PartialOrd, Ord, Hash, Structural)]
pub struct Instant {
    since_origin: Duration,
}

impl View for Instant {
    type V = nat;

    /// The nanoseconds since the origin of the clock.
    closed spec fn view(&self) -> nat {
        self.since_origin@
    }
}

impl Instant {
    /// Two points at the same distance from the origin are the same point.
    pub proof fn lemma_ext(a: Instant, b: Instant)
        requires
            a@ == b@,
        ensures
            a == b,
    {
    }

    /// The point at the given distance from the origin of the clock.
    pub fn after_origin(since_origin: Duration) -> (i: Instant)
        ensures
            i@ == since_origin@,
    {
        Instant { since_origin }
    }

    /// The distance from the origin of the clock.
    pub fn since_origin(&self) -> (d: Duration)
        ensures
            d@ == self@,
    {
        self.since_origin
    }

    /// The distance from the origin of the clock in nanoseconds.
    pub fn as_nanos(&self) -> (n: u128)
        ensures
            n == self@,
            n <= MAX_NANOS,
    {
        self.since_origin.as_nanos()
    }

    /// The point that lies `span` later, if it is representable.
    pub fn checked_add(self, span: Duration) -> (later: Option<Instant>)
        ensures
            later is Some <==> self@ + span@ <= MAX_NANOS,
            later is Some ==> later->0@ == self@ + span@,
    {
        match self.since_origin.checked_add(span) {
            Some(since_origin) => Some(Instant { since_origin }),
            None => None,
        }
    }

    /// The span from `earlier` to this point, or the empty span if it is later.
    pub fn saturating_duration_since(&self, earlier: Instant) -> (span: Duration)
        ensures
            span@ == if earlier@ <= self@ {
                (self@ - earlier@) as nat
            } else {
                0
            },
    {
        self.since_origin.saturating_sub(earlier.since_origin)
    }

    /// The span from `earlier` to this point, if it is not negative.
    pub fn checked_duration_since(&self, earlier: Instant) -> (span: Option<Duration>)
        ensures
            span is Some <==> earlier@ <= self@,
            span is Some ==> span->0@ == self@ - earlier@,
    {
        self.since_origin.checked_sub(earlier.since_origin)
    }
}

} // verus!
