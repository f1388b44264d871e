//! Readings of the machine's clocks.

use vstd::prelude::*;

verus! {

/// `std::time::Instant`, kept opaque.
#[verifier::external_type_specification]
#[verifier::external_body]
pub struct ExInstant(std::time::Instant);

/// `std::time::SystemTime`, kept opaque.
#[verifier::external_type_specification]
#[verifier::external_body]
pub struct ExSystemTime(std::time::SystemTime);

/// `Instant::now`. Nothing is claimed of the reading.
pub assume_specification[ std::time::Instant::now ]() -> std::time::Instant;

/// The time from one instant to another, as `Instant::elapsed` measures it.
pub uninterp spec fn time_between(
    earlier: std::time::Instant,
    later: std::time::Instant,
) -> core::time::Duration;

/// The whole milliseconds of a duration.
pub uninterp spec fn whole_millis(duration: core::time::Duration) -> u128;

/// The time from the Unix epoch to a system time, if that is not before the epoch.
pub uninterp spec fn time_since_epoch(time: std::time::SystemTime) -> Option<core::time::Duration>;

/// `Instant::elapsed`: the time from the instant to the one at which it is called, of which
/// nothing is claimed.
pub assume_specification[ std::time::Instant::elapsed ](instant: &std::time::Instant) -> (elapsed:
    core::time::Duration)
    ensures
        exists|later: std::time::Instant| elapsed == #[trigger] time_between(*instant, later),
;

/// `Duration::as_millis`: the whole milliseconds of the duration.
pub assume_specification[ core::time::Duration::as_millis ](
    duration: &core::time::Duration,
) -> (millis: u128)
    ensures
        millis == whole_millis(*duration),
;

/// `SystemTime::now`. Nothing is claimed of the reading.
pub assume_specification[ std::time::SystemTime::now ]() -> std::time::SystemTime;

/// `SystemTime::duration_since` the Unix epoch: nothing for a time before it.
#[verifier::external_body]
fn since_epoch(time: std::time::SystemTime) -> (since: Option<core::time::Duration>)
    ensures
        since == time_since_epoch(time),
{
    time.duration_since(std::time::UNIX_EPOCH).ok()
}

/// A span of milliseconds as a 64-bit number; longer spans become the largest one.
pub open spec fn saturated(ms: u128) -> u64 {
    if ms > u64::MAX {
        u64::MAX
    } else {
        ms as u64
    }
}

/// A span of milliseconds as a 64-bit number; longer spans become the largest one.
pub fn saturate(ms: u128) -> (n: u64)
    ensures
        n == saturated(ms),
{
    if ms > u64::MAX as u128 {
        u64::MAX
    } else {
        ms as u64
    }
}

/// A monotonic clock that counts milliseconds since it was started. It is immune to adjustments
/// of the system time.
#[derive(Clone, Copy)]
pub struct MonotonicClock {
    origin: std::time::Instant,
}

impl MonotonicClock {
    /// Starts a clock.
    pub fn start() -> Self {
        MonotonicClock { origin: std::time::Instant::now() }
    }

    /// Milliseconds from the start of the clock to an instant.
    pub closed spec fn reading(self, at: std::time::Instant) -> u64 {
        saturated(whole_millis(time_between(self.origin, at)))
    }

    /// Milliseconds since the clock was started.
    pub fn now_ms(&self) -> (ms: u64)
        ensures
            exists|at: std::time::Instant| ms == #[trigger] self.reading(at),
    {
        let elapsed = self.origin.elapsed();
        proof {
            let at = choose|at: std::time::Instant| elapsed == #[trigger] time_between(
                self.origin,
                at,
            );
            assert(saturated(whole_millis(elapsed)) == self.reading(at));
        }
        saturate(elapsed.as_millis())
    }

    /// Whole seconds from the start of the clock to an instant.
    pub open spec fn seconds(self, at: std::time::Instant) -> u64 {
        (self.reading(at) / 1000) as u64
    }

    /// Whole seconds since the clock was started.
    pub fn now_secs(&self) -> (secs: u64)
        ensures
            exists|at: std::time::Instant| secs == #[trigger] self.seconds(at),
    {
        let ms: u64 = self.now_ms();
        proof {
            let at = choose|at: std::time::Instant| ms == #[trigger] self.reading(at);
            assert(ms / 1000 == self.seconds(at));
        }
        ms / 1000
    }
}

/// A system time in milliseconds since the Unix epoch, and 0 for one before it.
pub open spec fn unix_ms_at(time: std::time::SystemTime) -> u64 {
    match time_since_epoch(time) {
        Some(duration) => saturated(whole_millis(duration)),
        None => 0,
    }
}

/// The system time in milliseconds since the Unix epoch, and 0 while the clock stands before it.
pub fn unix_ms() -> (ms: u64)
    ensures
        exists|time: std::time::SystemTime| ms == #[trigger] unix_ms_at(time),
{
    let time = std::time::SystemTime::now();
    let ms: u64 = match since_epoch(time) {
        Some(duration) => saturate(duration.as_millis()),
        None => 0,
    };
    assert(ms == unix_ms_at(time));
    ms
}

/// A system time in seconds since the Unix epoch, and 0 for one before it.
pub open spec fn unix_secs_at(time: std::time::SystemTime) -> u64 {
    (unix_ms_at(time) / 1000) as u64
}

/// The system time in seconds since the Unix epoch, and 0 while the clock stands before it.
pub fn unix_secs() -> (secs: u64)
    ensures
        exists|time: std::time::SystemTime| secs == #[trigger] unix_secs_at(time),
{
    let ms: u64 = unix_ms();
    proof {
        let time = choose|time: std::time::SystemTime| ms == #[trigger] unix_ms_at(time);
        assert(ms / 1000 == unix_secs_at(time));
    }
    ms / 1000
}

/// `udp_relay_core::TunnelClient::current_timestamp`: Unix time in seconds. Nothing is claimed of
/// the reading.
#[verifier::external_body]
pub(crate) fn relay_timestamp() -> u64 {
    udp_relay_core::TunnelClient::current_timestamp()
}

/// A span of milliseconds keeps its length as a 64-bit number if it fits, and is the largest one
/// otherwise. Seconds are a thousand milliseconds each, rounded down.
pub proof fn law_spans_are_kept(ms: u128, clock: MonotonicClock, at: std::time::Instant)
    ensures
        ms <= 0xffff_ffff_ffff_ffff ==> saturated(ms) == ms,
        ms > 0xffff_ffff_ffff_ffff ==> saturated(ms) == 0xffff_ffff_ffff_ffff,
        clock.seconds(at) * 1000 <= clock.reading(at) < clock.seconds(at) * 1000 + 1000,
{
}

/// Unix time is the time since the epoch, and 0 before it; its seconds are a thousand of its
/// milliseconds.
pub proof fn law_unix_time_counts_from_the_epoch(time: std::time::SystemTime)
    ensures
        time_since_epoch(time) is None ==> unix_ms_at(time) == 0,
        time_since_epoch(time) matches Some(span) ==> unix_ms_at(time) == saturated(
            whole_millis(span),
        ),
        unix_secs_at(time) * 1000 <= unix_ms_at(time) < unix_secs_at(time) * 1000 + 1000,
{
}

} // verus!
