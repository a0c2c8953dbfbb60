//! Where the scheduler reads the time.

use crate::time::{Duration, Moment};
use crate::time::{MAX_MOMENT_NANOS, NANOS_PER_SEC};
use crate::utc::{moved_on, UtcTime};
use crate::utc::{lemma_moved_on_additive, lemma_moved_on_nowhere, MAX_STEP_NANOS, MAX_UTC_SECS};
use std::sync::Arc;
use vstd::prelude::*;
use vstd::rwlock::{RwLock, RwLockPredicate};

verus! {

/// Abstraction over the two notions of time that the scheduler needs.
///
/// The scheduler reads time only through a `Clock`, so it can be driven step by step in tests:
/// production uses [`SystemClock`], tests use [`TestClock`], which advances only when told to.
///
/// * [`now`](Clock::now) is a monotonic [`Moment`], used to time ticks.
/// * [`now_utc`](Clock::now_utc) is a wall-clock [`UtcTime`], used for timestamps and dates.
///
/// Both should be cheap and must not block. They may come from different sources but must advance
/// together.
pub trait Clock: Send + Sync {
    /// Whether the clock may ever read `now`. Any moment, unless a clock says more of itself.
    open spec fn may_read(&self, now: Moment) -> bool {
        true
    }

    /// Whether the clock may ever read the wall-clock time `now`. Any time, unless a clock says more
    /// of itself.
    open spec fn may_read_utc(&self, now: UtcTime) -> bool {
        true
    }

    /// The current monotonic time. It should never go back from one call to the next.
    fn now(&self) -> (now: Moment)
        ensures
            self.may_read(now),
    ;

    /// The current wall-clock time. Unlike [`now`](Clock::now) it can jump when the system clock is
    /// set.
    fn now_utc(&self) -> (now: UtcTime)
        ensures
            self.may_read_utc(now),
    ;
}

/// Tokio's monotonic point in time.
#[verifier::external_type_specification]
#[verifier::external_body]
pub struct ExTokioInstant(tokio::time::Instant);

/// `tokio::time::Instant::now`: the current point on the system's monotonic clock. Nothing is
/// claimed of it.
#[verifier::external_body]
fn tokio_now() -> tokio::time::Instant {
    tokio::time::Instant::now()
}

/// `tokio::time::Instant::elapsed`: the seconds and nanoseconds that have gone by since `origin`.
/// All that is claimed is that the nanoseconds are less than a second's worth.
#[verifier::external_body]
fn tokio_elapsed(origin: &tokio::time::Instant) -> (elapsed: (u64, u32))
    ensures
        elapsed.1 < 1_000_000_000,
{
    let elapsed = origin.elapsed();
    (elapsed.as_secs(), elapsed.subsec_nanos())
}

/// The production [`Clock`]: Tokio's monotonic clock, with its origin where the `SystemClock` was
/// made, and the system's wall clock. Clones share that origin.
#[derive(Debug)]
pub struct SystemClock {
    origin: tokio::time::Instant,
}

impl SystemClock {
    /// Whether the origin is a point that `tokio::time::Instant::now` gave.
    pub closed spec fn has_started(&self) -> bool {
        call_ensures(tokio_now, (), self.origin)
    }

    /// Whether `tokio::time::Instant::elapsed` may report `secs` seconds and `nanos` nanoseconds for
    /// the origin of this clock.
    pub closed spec fn may_have_elapsed(&self, secs: u64, nanos: u32) -> bool {
        call_ensures(tokio_elapsed, (&self.origin,), (secs, nanos))
    }

    /// A clock whose monotonic time starts now. When that is, only the system knows.
    pub fn new() -> (clock: SystemClock)
        ensures
            clock.has_started(),
    {
        SystemClock { origin: tokio_now() }
    }

    /// The nanoseconds from the origin of the clock to what it shows once `elapsed` nanoseconds have
    /// gone by since.
    pub open spec fn shows(elapsed: nat) -> nat {
        if elapsed <= MAX_MOMENT_NANOS {
            elapsed
        } else {
            MAX_MOMENT_NANOS as nat
        }
    }

    /// What the clock shows once `secs` seconds and `nanos` nanoseconds have gone by since its
    /// origin: that point, or the last one where it lies further.
    pub fn shown_after(secs: u64, nanos: u32) -> (now: Moment)
        requires
            nanos < 1_000_000_000,
        ensures
            now@ == SystemClock::shows((secs * NANOS_PER_SEC + nanos) as nat),
    {
        Moment::after_origin(&Duration::new(secs, nanos))
    }
}

impl Default for SystemClock {
    /// A clock whose monotonic time starts now.
    fn default() -> (clock: SystemClock)
        ensures
            clock.has_started(),
    {
        SystemClock::new()
    }
}

impl Clone for SystemClock {
    fn clone(&self) -> (copy: SystemClock)
        ensures
            copy == *self,
    {
        SystemClock { origin: self.origin }
    }
}

impl Clock for SystemClock {
    /// Whether `now` is what the clock shows after a time that may be reported to have gone by since
    /// its origin. It is no further from the origin than the last moment, at which the clock stays.
    open spec fn may_read(&self, now: Moment) -> bool {
        &&& now.in_range()
        &&& exists|secs: u64, nanos: u32| #[trigger]
            self.may_have_elapsed(secs, nanos) && now@ == SystemClock::shows(
                (secs * NANOS_PER_SEC + nanos) as nat,
            )
    }

    open spec fn may_read_utc(&self, now: UtcTime) -> bool {
        now.valid() && now@.1 < 1_000_000_000 && now.may_be_now()
    }

    fn now(&self) -> (now: Moment) {
        let (secs, nanos) = tokio_elapsed(&self.origin);
        assert(self.may_have_elapsed(secs, nanos));
        SystemClock::shown_after(secs, nanos)
    }

    fn now_utc(&self) -> (now: UtcTime) {
        UtcTime::now()
    }
}

/// What a clock may show rests on what Tokio reports for the very origin of that clock, all of it,
/// and that origin is one that Tokio gave.
proof fn law_system_clock_rests_on_tokio(clock: SystemClock, secs: u64, nanos: u32)
    ensures
        clock.may_have_elapsed(secs, nanos) ==> call_ensures(
            tokio_elapsed,
            (&clock.origin,),
            (secs, nanos),
        ),
        clock.has_started() ==> call_ensures(tokio_now, (), clock.origin),
{
}

/// What a [`TestClock`] shows: one reading of each kind.
#[derive(Debug, Clone, Copy)]
pub struct TestState {
    pub mono: Moment,
    pub utc: UtcTime,
}

impl TestState {
    /// Whether both readings lie `by` nanoseconds after those of `start`.
    pub open spec fn after(self, start: TestState, by: nat) -> bool {
        &&& self.mono@ == start.mono@ + by
        &&& self.utc@ == moved_on(start.utc@, by)
    }

    /// Whether both readings are ones that a clock can show.
    pub open spec fn in_range(self) -> bool {
        self.mono.in_range() && self.utc.valid()
    }

    /// Whether both readings can be moved forward by `by` nanoseconds.
    pub open spec fn can_advance(self, by: nat) -> bool {
        &&& self.mono@ + by <= MAX_MOMENT_NANOS
        &&& moved_on(self.utc@, by).0 <= MAX_UTC_SECS
    }

    /// Moves both readings forward by `by`, or neither where one of them cannot go that far.
    pub fn advance(&mut self, by: Duration) -> (moved: bool)
        ensures
            moved == old(self).can_advance(by@),
            moved ==> final(self).after(*old(self), by@),
            !moved ==> *final(self) == *old(self),
    {
        match (self.mono.checked_add(&by), self.utc.checked_add(&by)) {
            (Some(mono), Some(utc)) => {
                self.mono = mono;
                self.utc = utc;
                true
            },
            _ => false,
        }
    }
}

/// The states that a [`TestClock`] can come to from the one it was made with.
pub struct Reachable {
    pub start: TestState,
}

impl RwLockPredicate<TestState> for Reachable {
    open spec fn inv(self, state: TestState) -> bool {
        &&& self.start.utc.valid()
        &&& state.in_range()
        &&& exists|by: nat| #[trigger] state.after(self.start, by)
    }
}

/// A controllable [`Clock`] for deterministic tests.
///
/// Frozen on creation, advancing only on [`advance`](TestClock::advance). Cheap to clone: clones
/// share their state, so a clone handed to the scheduler observes the time that the test drives.
pub struct TestClock {
    state: Arc<RwLock<TestState, Reachable>>,
}

impl TestClock {
    /// What the clock showed when it was made.
    pub closed spec fn start(&self) -> TestState {
        self.state.pred().start
    }

    /// A clock frozen at `start`. Its monotonic time starts at its origin.
    pub fn new(start: UtcTime) -> (clock: TestClock)
        ensures
            clock.start().mono@ == 0,
            clock.start().utc == start,
    {
        let state = TestState { mono: Moment::origin(), utc: start };
        proof {
            use_type_invariant(&start);
            use_type_invariant(&state.mono);
            lemma_moved_on_nowhere(start@);
            assert(state.after(state, 0));
        }
        TestClock { state: Arc::new(RwLock::new(state, Ghost(Reachable { start: state }))) }
    }

    /// Whether the clock may show `state`: both its readings are in range, and lie equally far after
    /// those of [`start`](TestClock::start).
    pub open spec fn may_show(&self, state: TestState) -> bool {
        &&& state.in_range()
        &&& exists|by: nat| #[trigger] state.after(self.start(), by)
    }

    /// What the clock shows: both readings, taken together.
    pub fn state(&self) -> (state: TestState)
        ensures
            self.may_show(state),
    {
        let handle = self.state.acquire_read();
        let state = *handle.borrow();
        handle.release_read();
        assert(self.start() == self.state.pred().start && self.state.pred().inv(state));
        state
    }

    /// Moves both readings forward by `by`, as all clones observe. The step must be one that
    /// `chrono` can take. Where one of the readings cannot go that far, neither moves and the result
    /// is `false`.
    ///
    /// The step itself is [`TestState::advance`]. What a later reading shows is left open by the
    /// contract, since any clone may have moved the clock in between.
    pub fn advance(&self, by: Duration) -> (moved: bool)
        requires
            by@ <= MAX_STEP_NANOS,
        ensures
            exists|state: TestState| #[trigger]
                self.may_show(state) && moved == state.can_advance(by@),
    {
        let (mut state, handle) = self.state.acquire_write();
        let ghost before = state;
        let moved = state.advance(by);
        proof {
            use_type_invariant(&state.mono);
            use_type_invariant(&state.utc);
            assert(self.start() == self.state.pred().start && self.state.pred().inv(before));
            assert(self.may_show(before));
            let so_far = choose|so_far: nat| #[trigger] before.after(self.start(), so_far);
            if moved {
                lemma_moved_on_additive(self.start().utc@, so_far, by@);
                assert(state.after(self.start(), so_far + by@));
            }
        }
        handle.release_write(state);
        moved
    }
}

impl Clone for TestClock {
    fn clone(&self) -> (copy: TestClock)
        ensures
            copy == *self,
    {
        TestClock { state: self.state.clone() }
    }
}

impl Clock for TestClock {
    open spec fn may_read(&self, now: Moment) -> bool {
        exists|state: TestState| #[trigger] self.may_show(state) && state.mono == now
    }

    open spec fn may_read_utc(&self, now: UtcTime) -> bool {
        exists|state: TestState| #[trigger] self.may_show(state) && state.utc == now
    }

    fn now(&self) -> (now: Moment) {
        self.state().mono
    }

    fn now_utc(&self) -> (now: UtcTime) {
        self.state().utc
    }
}

} // verus!
