//! Time: a monotonic clock that counts from its own start.

use std::time::{Duration, Instant};

use vstd::prelude::*;

verus! {

/// A point in time of the machine's monotonic clock.
#[verifier::external_type_specification]
#[verifier::external_body]
pub struct ExInstant(Instant);

/// `Instant::now` reads the monotonic clock. Nothing holds of every reading.
pub assume_specification[ Instant::now ]() -> (now: Instant);

/// `Instant::elapsed` reads the monotonic clock. Nothing holds of every reading.
pub assume_specification[ Instant::elapsed ](since: &Instant) -> (elapsed: Duration);

/// `Duration::as_nanos` measures a span of time: one that was made of seconds or of
/// nanoseconds has as many. Nothing is stated of other spans.
pub assume_specification[ Duration::as_nanos ](span: &Duration) -> (nanos: u128)
    ensures
        forall|secs: u64| *span == #[trigger] seconds(secs) ==> nanos == secs * 1_000_000_000,
        forall|n: u64| *span == #[trigger] nanoseconds(n) ==> nanos == n,
;

/// A span of whole seconds.
pub uninterp spec fn seconds(secs: u64) -> Duration;

/// A span of nanoseconds.
pub uninterp spec fn nanoseconds(nanos: u64) -> Duration;

/// `Duration::from_secs` makes a span of whole seconds.
pub assume_specification[ Duration::from_secs ](secs: u64) -> (span: Duration)
    ensures
        span == seconds(secs),
;

/// `Duration::from_nanos` makes a span of nanoseconds.
pub assume_specification[ Duration::from_nanos ](nanos: u64) -> (span: Duration)
    ensures
        span == nanoseconds(nanos),
;

/// Whether `nanos` is what the machine's monotonic clock showed, in nanoseconds since
/// `start`: `Instant::elapsed` returned a span, and that is its length.
pub open spec fn is_reading(start: Instant, nanos: u128) -> bool {
    exists|elapsed: Duration| #[trigger]
        call_ensures(Instant::elapsed, (&start,), elapsed) && call_ensures(
            Duration::as_nanos,
            (&elapsed,),
            nanos,
        )
}

/// Whether `start` is a moment that the machine's monotonic clock showed.
pub open spec fn is_moment(start: Instant) -> bool {
    call_ensures(Instant::now, (), start)
}

/// Whether `time` is `reading`, or `latest` where that lies ahead.
pub open spec fn is_time(latest: u128, reading: u128, time: u128) -> bool {
    &&& time >= latest
    &&& time >= reading
    &&& time == latest || time == reading
}

/// One second in nanoseconds.
pub const SECOND: u128 = 1_000_000_000;

/// The time `span` after `now`, or the last time there is.
pub open spec fn later(now: u128, span: u128) -> u128 {
    if now + span <= u128::MAX {
        (now + span) as u128
    } else {
        u128::MAX
    }
}

/// The time `span` after `now`, or the last time there is.
pub fn after(now: u128, span: u128) -> (deadline: u128)
    ensures
        deadline == later(now, span),
{
    now.saturating_add(span)
}

/// Whether at least `span` has gone by from `since` to `now`.
/// A time `since` that lies ahead counts as now.
pub open spec fn has_elapsed(since: u128, now: u128, span: u128) -> bool {
    span == 0 || now - since >= span
}

/// Whether at least `span` has gone by from `since` to `now`.
pub fn elapsed_at_least(since: u128, now: u128, span: u128) -> (elapsed: bool)
    ensures
        elapsed == has_elapsed(since, now, span),
{
    span == 0 || (now >= since && now - since >= span)
}

/// Microseconds, wrapped into 32 bits.
pub fn wrap_micros(nanos: u128) -> (ticks: u32)
    ensures
        ticks == (nanos / 1000) % 0x1_0000_0000,
{
    ((nanos / 1000) % 0x1_0000_0000) as u32
}

/// A clock that counts from its own start, and that wraps elapsed microseconds
/// into a `u32` for the transports.
///
/// It never runs backwards: a reading that would lie before an earlier one counts
/// as that one.
#[derive(Debug, Clone, Copy)]
pub struct SystemClock {
    start: Instant,
    latest: u128,
}

impl SystemClock {
    /// When the clock was started.
    pub closed spec fn origin(&self) -> Instant {
        self.start
    }

    /// The latest reading, in nanoseconds since the start.
    pub closed spec fn latest(&self) -> u128 {
        self.latest
    }

    /// Start a clock.
    pub fn new() -> (clock: Self)
        ensures
            clock.latest() == 0,
            is_moment(clock.origin()),
    {
        SystemClock { start: Instant::now(), latest: 0 }
    }

    /// Take in a reading, in nanoseconds since the start: the time is the reading, or
    /// the latest one before where that lies ahead.
    pub fn advance(&mut self, reading: u128) -> (nanos: u128)
        ensures
            final(self).origin() == old(self).origin(),
            final(self).latest() == nanos,
            nanos == if reading > old(self).latest() {
                reading
            } else {
                old(self).latest()
            },
    {
        if reading > self.latest {
            self.latest = reading;
        }
        self.latest
    }

    /// Nanoseconds since the clock was started.
    ///
    /// The machine's clock is read, and what is made of the reading is
    /// [`advance`](SystemClock::advance).
    pub fn nanos(&mut self) -> (nanos: u128)
        ensures
            final(self).origin() == old(self).origin(),
            final(self).latest() == nanos,
            nanos >= old(self).latest(),
            exists|reading: u128| #[trigger]
                is_reading(old(self).origin(), reading) && is_time(
                    old(self).latest(),
                    reading,
                    nanos,
                ),
    {
        let elapsed = self.start.elapsed();
        let reading: u128 = elapsed.as_nanos();
        assert(is_reading(self.start, reading));
        self.advance(reading)
    }

    /// Microseconds since the clock was started, wrapped into 32 bits.
    pub fn ticks(&mut self) -> (ticks: u32)
        ensures
            final(self).origin() == old(self).origin(),
            final(self).latest() >= old(self).latest(),
            exists|reading: u128| #[trigger]
                is_reading(old(self).origin(), reading) && is_time(
                    old(self).latest(),
                    reading,
                    final(self).latest(),
                ),
            ticks == (final(self).latest() / 1000) % 0x1_0000_0000,
    {
        wrap_micros(self.nanos())
    }
}

impl Default for SystemClock {
    fn default() -> (clock: Self)
        ensures
            clock.latest() == 0,
            is_moment(clock.origin()),
    {
        Self::new()
    }
}

// ─── laws ────────────────────────────────────────────────────────────────────

/// The time is never behind what the machine's clock shows, never runs backwards, and is
/// what the machine's clock shows unless that lies behind an earlier time.
pub proof fn time_follows_the_machine(latest: u128, reading: u128, time: u128)
    requires
        is_time(latest, reading, time),
    ensures
        time >= reading,
        time >= latest,
        reading >= latest ==> time == reading,
        reading < latest ==> time == latest,
{
}

} // verus!
