//! Points in wall-clock time (UTC), and the calendar arithmetic that `chrono` does on them.

use crate::time::Duration;
use chrono::Timelike;
use vstd::prelude::*;

verus! {

/// The first second that a [`UtcTime`] can name, counted from 1970-01-01T00:00:00:
/// midnight of January 1, 262144 BCE.
pub const MIN_UTC_SECS: i64 = -8_334_601_228_800;

/// The last second that a [`UtcTime`] can name: the last one of December 31, 262142 CE.
pub const MAX_UTC_SECS: i64 = 8_210_266_876_799;

/// Nanoseconds in the longest step that `chrono` can take: `i64::MAX` milliseconds.
pub const MAX_STEP_NANOS: u128 = 9_223_372_036_854_775_807_000_000;

/// Whether `secs` seconds since 1970-01-01T00:00:00 and `nanos` nanoseconds name a point in time.
///
/// A leap second is written as the second before it with a billion nanoseconds or more. It may
/// follow any second.
pub open spec fn valid_parts(secs: int, nanos: int) -> bool {
    &&& MIN_UTC_SECS <= secs <= MAX_UTC_SECS
    &&& 0 <= nanos < 2_000_000_000
}

/// Whether the point `a` is no later than the point `b`, both given as seconds and nanoseconds.
pub open spec fn no_later(a: (int, int), b: (int, int)) -> bool {
    a.0 < b.0 || (a.0 == b.0 && a.1 <= b.1)
}

/// The point's place on a line on which a leap second shares the place of the second before it.
pub open spec fn position(t: (int, int)) -> int {
    if t.1 < 1_000_000_000 {
        t.0 * 1_000_000_000 + t.1
    } else {
        t.0 * 1_000_000_000 + t.1 - 1_000_000_000
    }
}

/// The point that lies `by` nanoseconds after `t`. Time that starts inside a leap second stays in
/// it until that second is over, and goes on with the second that follows.
pub open spec fn moved_on(t: (int, int), by: nat) -> (int, int) {
    if t.1 >= 1_000_000_000 && t.1 + by < 2_000_000_000 {
        (t.0, t.1 + by)
    } else {
        ((position(t) + by) / 1_000_000_000, (position(t) + by) % 1_000_000_000)
    }
}

/// The nanoseconds from `earlier` to `later`, negative where `later` comes first. A leap second at
/// either end counts where the other end has passed its time of day.
pub open spec fn nanos_between(later: (int, int), earlier: (int, int)) -> int {
    let later_of_day = later.0 % 86_400;
    let earlier_of_day = earlier.0 % 86_400;
    (later.0 - earlier.0) * 1_000_000_000 + (later.1 - earlier.1) + if later_of_day > earlier_of_day
        && earlier.1 >= 1_000_000_000 {
        1_000_000_000int
    } else if later_of_day < earlier_of_day && later.1 >= 1_000_000_000 {
        -1_000_000_000
    } else {
        0
    }
}

/// The whole milliseconds in `nanos` nanoseconds, rounded towards zero.
pub open spec fn whole_millis(nanos: int) -> int {
    if nanos >= 0 {
        nanos / 1_000_000
    } else {
        -((-nanos) / 1_000_000)
    }
}

/// `chrono::Utc::now`: the system's wall-clock time. All that is claimed is that it names a point
/// in time and is never inside a leap second. It panics where the system's clock is set to before
/// 1970, or to after the last second that a [`UtcTime`] can name.
#[verifier::external_body]
fn chrono_utc_now() -> (now: (i64, u32))
    ensures
        valid_parts(now.0 as int, now.1 as int),
        now.1 < 1_000_000_000,
{
    let now = chrono::Utc::now();
    (now.timestamp(), now.timestamp_subsec_nanos())
}

/// `chrono::DateTime::checked_add_signed`: the point in time that lies `by_secs` seconds and
/// `by_nanos` nanoseconds after `secs` and `nanos`. Claimed to be [`moved_on`], and absent just
/// where that is after [`MAX_UTC_SECS`]. The point is made from its second, and then given its
/// nanoseconds, which takes a leap second after any second.
#[verifier::external_body]
fn chrono_checked_add(secs: i64, nanos: u32, by_secs: u64, by_nanos: u32) -> (sum: Option<
    (i64, u32),
>)
    requires
        valid_parts(secs as int, nanos as int),
        by_nanos < 1_000_000_000,
    ensures
        sum is Some <==> moved_on(
            (secs as int, nanos as int),
            (by_secs * 1_000_000_000 + by_nanos) as nat,
        ).0 <= MAX_UTC_SECS,
        sum matches Some(t) ==> (t.0 as int, t.1 as int) == moved_on(
            (secs as int, nanos as int),
            (by_secs * 1_000_000_000 + by_nanos) as nat,
        ),
{
    let at = chrono::DateTime::from_timestamp(secs, 0)?.naive_utc();
    let at = at.with_nanosecond(nanos)?.and_utc();
    let by = chrono::TimeDelta::from_std(std::time::Duration::new(by_secs, by_nanos)).ok()?;
    let sum = at.checked_add_signed(by)?;
    Some((sum.timestamp(), sum.timestamp_subsec_nanos()))
}

/// `chrono::DateTime::signed_duration_since`, in the whole milliseconds that
/// `chrono::TimeDelta::num_milliseconds` counts. Claimed to be the [`whole_millis`] of
/// [`nanos_between`]. Both points are made as for [`chrono_checked_add`].
#[verifier::external_body]
fn chrono_millis_between(
    later_secs: i64,
    later_nanos: u32,
    earlier_secs: i64,
    earlier_nanos: u32,
) -> (millis: i64)
    requires
        valid_parts(later_secs as int, later_nanos as int),
        valid_parts(earlier_secs as int, earlier_nanos as int),
    ensures
        millis == whole_millis(
            nanos_between(
                (later_secs as int, later_nanos as int),
                (earlier_secs as int, earlier_nanos as int),
            ),
        ),
{
    let later = chrono::DateTime::from_timestamp(later_secs, 0).unwrap().naive_utc();
    let later = later.with_nanosecond(later_nanos).unwrap().and_utc();
    let earlier = chrono::DateTime::from_timestamp(earlier_secs, 0).unwrap().naive_utc();
    let earlier = earlier.with_nanosecond(earlier_nanos).unwrap().and_utc();
    later.signed_duration_since(earlier).num_milliseconds()
}

/// A point in wall-clock time, in UTC. Its view is the seconds since 1970-01-01T00:00:00 and the
/// nanoseconds within that second.
#[derive(Debug, Clone, Copy, PartialEq, Eq, PartialOrd, Ord, Hash)]
pub struct UtcTime {
    secs: i64,
    nanos: u32,
}

impl View for UtcTime {
    type V = (int, int);

    closed spec fn view(&self) -> (int, int) {
        (self.secs as int, self.nanos as int)
    }
}

impl UtcTime {
    /// The seconds and nanoseconds name a point in time.
    #[verifier::type_invariant]
    pub open spec fn valid(self) -> bool {
        valid_parts(self@.0, self@.1)
    }

    /// Whether `chrono::Utc::now` may give this point.
    pub closed spec fn may_be_now(self) -> bool {
        call_ensures(chrono_utc_now, (), (self.secs, self.nanos))
    }

    /// The point at `secs` seconds since 1970-01-01T00:00:00 and `nanos` nanoseconds, where these
    /// name one.
    pub fn new(secs: i64, nanos: u32) -> (t: Option<UtcTime>)
        ensures
            t is Some <==> valid_parts(secs as int, nanos as int),
            t matches Some(at) ==> at@ == (secs as int, nanos as int),
    {
        if MIN_UTC_SECS <= secs && secs <= MAX_UTC_SECS && nanos < 2_000_000_000 {
            Some(UtcTime { secs, nanos })
        } else {
            None
        }
    }

    /// The system's wall-clock time. It never lies inside a leap second.
    pub fn now() -> (t: UtcTime)
        ensures
            t.valid(),
            t@.1 < 1_000_000_000,
            t.may_be_now(),
    {
        let (secs, nanos) = chrono_utc_now();
        UtcTime { secs, nanos }
    }

    /// The whole seconds since 1970-01-01T00:00:00, leap seconds not counted.
    pub fn timestamp(&self) -> (secs: i64)
        ensures
            secs == self@.0,
    {
        self.secs
    }

    /// The nanoseconds within the second; a billion or more inside a leap second.
    pub fn subsec_nanos(&self) -> (nanos: u32)
        ensures
            nanos == self@.1,
    {
        self.nanos
    }

    /// Whether this point is `other` or comes after it.
    pub fn at_or_after(&self, other: &UtcTime) -> (reached: bool)
        ensures
            reached == no_later(other@, self@),
    {
        self.secs > other.secs || (self.secs == other.secs && self.nanos >= other.nanos)
    }

    /// The point that lies `by` after this one, where the calendar reaches that far.
    pub fn checked_add(&self, by: &Duration) -> (later: Option<UtcTime>)
        ensures
            later is Some <==> moved_on(self@, by@).0 <= MAX_UTC_SECS,
            later matches Some(t) ==> t@ == moved_on(self@, by@),
    {
        proof {
            use_type_invariant(self);
            lemma_moved_on_valid(self@, by@);
        }
        match chrono_checked_add(self.secs, self.nanos, by.as_secs(), by.subsec_nanos()) {
            Some((secs, nanos)) => Some(UtcTime { secs, nanos }),
            None => None,
        }
    }

    /// The whole milliseconds from `earlier` to this point, rounded towards zero; negative where
    /// `earlier` is the later of the two.
    pub fn millis_since(&self, earlier: &UtcTime) -> (millis: i64)
        ensures
            millis == whole_millis(nanos_between(self@, earlier@)),
            -(i64::MAX as int) <= millis,
    {
        proof {
            use_type_invariant(self);
            use_type_invariant(earlier);
        }
        chrono_millis_between(self.secs, self.nanos, earlier.secs, earlier.nanos)
    }
}

/// The system's time is the one that chrono gives, in seconds and in nanoseconds.
proof fn law_now_rests_on_chrono(t: UtcTime)
    requires
        t.may_be_now(),
    ensures
        call_ensures(chrono_utc_now, (), (t.secs, t.nanos)),
        t@ == (t.secs as int, t.nanos as int),
{
}

/// To move on from a point in time, as far as the calendar reaches, leads to one that is no
/// earlier.
pub proof fn lemma_moved_on_valid(t: (int, int), by: nat)
    requires
        valid_parts(t.0, t.1),
    ensures
        no_later(t, moved_on(t, by)),
        moved_on(t, by).0 <= MAX_UTC_SECS ==> valid_parts(moved_on(t, by).0, moved_on(t, by).1),
{
}

/// To move on by no time is to stay.
pub proof fn lemma_moved_on_nowhere(t: (int, int))
    requires
        valid_parts(t.0, t.1),
    ensures
        moved_on(t, 0) == t,
{
}

/// To move on by one span and then by another is to move on by both at once.
pub proof fn lemma_moved_on_additive(t: (int, int), first: nat, second: nat)
    requires
        valid_parts(t.0, t.1),
    ensures
        moved_on(moved_on(t, first), second) == moved_on(t, first + second),
{
}

} // verus!
