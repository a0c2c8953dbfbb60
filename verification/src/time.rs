//! Spans of time and points on a monotonic clock, counted in nanoseconds.

use vstd::prelude::*;

verus! {

/// Nanoseconds in one second.
pub const NANOS_PER_SEC: u128 = 1_000_000_000;

/// Nanoseconds in the longest [`Duration`]: `u64::MAX` seconds and 999,999,999 nanoseconds.
pub const MAX_DURATION_NANOS: u128 = 18_446_744_073_709_551_615_999_999_999;

/// Nanoseconds from the origin of a clock to the last [`Moment`]: `i64::MAX` seconds and
/// 999,999,999 nanoseconds, which is how far the second counter of a monotonic clock reaches.
pub const MAX_MOMENT_NANOS: u128 = 9_223_372_036_854_775_807_999_999_999;

/// `a - b`, or zero where that is negative.
pub open spec fn saturating_difference(a: nat, b: nat) -> nat {
    if a >= b {
        (a - b) as nat
    } else {
        0
    }
}

/// A span of time, never negative, with nanosecond precision.
///
/// Its view is the number of nanoseconds.
#[derive(Debug, Clone, Copy, PartialEq, Eq, PartialOrd, Ord, Hash)]
pub struct Duration {
    nanos: u128,
}

impl View for Duration {
    type V = nat;

    closed spec fn view(&self) -> nat {
        self.nanos as nat
    }
}

impl Duration {
    /// No span is longer than [`MAX_DURATION_NANOS`].
    #[verifier::type_invariant]
    pub open spec fn in_range(self) -> bool {
        self@ <= MAX_DURATION_NANOS
    }

    /// The span of `nanos` nanoseconds.
    pub closed spec fn of(nanos: nat) -> Duration {
        Duration { nanos: nanos as u128 }
    }

    /// The span of no time at all.
    pub fn zero() -> (d: Duration)
        ensures
            d@ == 0,
            d == Duration::of(0),
    {
        Duration { nanos: 0 }
    }

    /// The span of `secs` seconds and `nanos` nanoseconds. As many as 4,294,967,295 nanoseconds
    /// may be given; whole seconds among them carry over.
    pub fn new(secs: u64, nanos: u32) -> (d: Duration)
        requires
            secs * NANOS_PER_SEC + nanos <= MAX_DURATION_NANOS,
        ensures
            d@ == secs * NANOS_PER_SEC + nanos,
    {
        Duration { nanos: secs as u128 * NANOS_PER_SEC + nanos as u128 }
    }

    /// The span of `secs` whole seconds.
    pub fn from_secs(secs: u64) -> (d: Duration)
        ensures
            d@ == secs * NANOS_PER_SEC,
    {
        Duration { nanos: secs as u128 * NANOS_PER_SEC }
    }

    /// The span of `millis` milliseconds.
    pub fn from_millis(millis: u64) -> (d: Duration)
        ensures
            d@ == millis * 1_000_000,
    {
        Duration { nanos: millis as u128 * 1_000_000 }
    }

    /// The whole seconds in the span.
    pub fn as_secs(&self) -> (secs: u64)
        ensures
            secs == self@ / (NANOS_PER_SEC as nat),
    {
        proof {
            use_type_invariant(self);
        }
        (self.nanos / NANOS_PER_SEC) as u64
    }

    /// The nanoseconds that are left of the span after its whole seconds.
    pub fn subsec_nanos(&self) -> (nanos: u32)
        ensures
            nanos == self@ % (NANOS_PER_SEC as nat),
    {
        (self.nanos % NANOS_PER_SEC) as u32
    }

    /// All nanoseconds in the span.
    pub fn as_nanos(&self) -> (nanos: u128)
        ensures
            nanos == self@,
            nanos <= MAX_DURATION_NANOS,
    {
        proof {
            use_type_invariant(self);
        }
        self.nanos
    }

    /// Whether the span is at least as long as `other`.
    pub fn at_least(&self, other: &Duration) -> (longer: bool)
        ensures
            longer == (self@ >= other@),
    {
        self.nanos >= other.nanos
    }

    /// The span as long as both spans together.
    pub fn plus(&self, other: &Duration) -> (sum: Duration)
        requires
            self@ + other@ <= MAX_DURATION_NANOS,
        ensures
            sum@ == self@ + other@,
    {
        Duration { nanos: self.nanos + other.nanos }
    }
}

/// A span is fixed by its number of nanoseconds.
pub broadcast proof fn lemma_duration_of_view(d: Duration)
    ensures
        Duration::of(#[trigger] d@) == d,
{
}

/// [`Duration::of`] gives a span of the nanoseconds asked for.
pub broadcast proof fn lemma_duration_view_of(nanos: nat)
    requires
        nanos <= u128::MAX,
    ensures
        #[trigger] Duration::of(nanos)@ == nanos,
{
}

/// A point on a monotonic clock. Its view is the number of nanoseconds since the origin of that
/// clock.
#[derive(Debug, Clone, Copy, PartialEq, Eq, PartialOrd, Ord, Hash)]
pub struct Moment {
    nanos: u128,
}

impl View for Moment {
    type V = nat;

    closed spec fn view(&self) -> nat {
        self.nanos as nat
    }
}

impl Moment {
    /// No point lies further from the origin than [`MAX_MOMENT_NANOS`].
    #[verifier::type_invariant]
    pub open spec fn in_range(self) -> bool {
        self@ <= MAX_MOMENT_NANOS
    }

    /// The origin of the clock.
    pub fn origin() -> (m: Moment)
        ensures
            m@ == 0,
    {
        Moment { nanos: 0 }
    }

    /// The point that lies `by` after the origin, or the last one where the clock does not reach
    /// that far.
    pub fn after_origin(by: &Duration) -> (m: Moment)
        ensures
            m@ == if by@ <= MAX_MOMENT_NANOS {
                by@
            } else {
                MAX_MOMENT_NANOS as nat
            },
    {
        if by.nanos <= MAX_MOMENT_NANOS {
            Moment { nanos: by.nanos }
        } else {
            Moment { nanos: MAX_MOMENT_NANOS }
        }
    }

    /// The point that lies `by` after this one, where the clock reaches that far.
    pub fn checked_add(&self, by: &Duration) -> (later: Option<Moment>)
        ensures
            later is Some <==> self@ + by@ <= MAX_MOMENT_NANOS,
            later matches Some(m) ==> m@ == self@ + by@,
    {
        proof {
            use_type_invariant(self);
            use_type_invariant(by);
        }
        let nanos: u128 = self.nanos + by.nanos;
        if nanos <= MAX_MOMENT_NANOS {
            Some(Moment { nanos })
        } else {
            None
        }
    }

    /// The time from `earlier` to this point; zero where `earlier` is the later of the two.
    pub fn saturating_duration_since(&self, earlier: &Moment) -> (d: Duration)
        ensures
            d@ == saturating_difference(self@, earlier@),
            d@ <= MAX_MOMENT_NANOS,
    {
        proof {
            use_type_invariant(self);
        }
        if self.nanos >= earlier.nanos {
            Duration { nanos: self.nanos - earlier.nanos }
        } else {
            Duration { nanos: 0 }
        }
    }
}

/// Nanoseconds since the origin of a clock are counted in 128 bits.
pub proof fn lemma_moment_bound(m: Moment)
    ensures
        m@ <= u128::MAX,
{
}

/// What is known of spans by their number of nanoseconds.
pub broadcast group group_time {
    lemma_duration_of_view,
    lemma_duration_view_of,
}

} // verus!
