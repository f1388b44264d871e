//! Token bucket rate limiting, for one consumer and per IP address.
//!
//! A bucket starts full. Every acquisition takes tokens out of it, and for every complete refill
//! interval that has passed the refill rate is put back, up to the capacity of the bucket.

use vstd::prelude::*;

use crate::addr::{IpAddr, IpKey};
use crate::clock::MonotonicClock;
use crate::table::{lemma_listing_len, lemma_permuted_listing, lemma_submap_len, lists, Table};

verus! {

/// The most refill periods that are credited at once.
pub const MAX_REFILL_PERIODS: u64 = 100;

/// The most IP addresses that are tracked at once.
pub const MAX_TRACKED_IPS: usize = 10_000;

/// Number of tracked addresses at which the least recently used ones are dropped: 90 %.
pub const EMERGENCY_CLEANUP_SIZE: usize = 9_000;

/// Number of addresses that are left when they have been: 70 %.
pub const EMERGENCY_TARGET_SIZE: usize = 7_000;

/// The synchronization of an atomic operation.
#[derive(Clone, Copy, Debug, PartialEq, Eq, Structural)]
pub enum AtomicAccess {
    Relaxed,
    Acquire,
    Release,
    AcqRel,
    SeqCst,
}

/// Memory ordering strategy for concurrent use of a limiter.
#[derive(Clone, Copy, Debug, PartialEq, Eq, Structural)]
pub enum MemoryOrdering {
    /// Maximum performance, for counts that need no synchronization across threads.
    Relaxed,
    /// Proper happens-before relationships between threads.
    AcquireRelease,
    /// All threads see operations in the same order.
    Sequential,
}

impl MemoryOrdering {
    /// The access that a load uses.
    pub fn load(&self) -> (access: AtomicAccess)
        ensures
            access == match *self {
                MemoryOrdering::Relaxed => AtomicAccess::Relaxed,
                MemoryOrdering::AcquireRelease => AtomicAccess::Acquire,
                MemoryOrdering::Sequential => AtomicAccess::SeqCst,
            },
    {
        match self {
            MemoryOrdering::Relaxed => AtomicAccess::Relaxed,
            MemoryOrdering::AcquireRelease => AtomicAccess::Acquire,
            MemoryOrdering::Sequential => AtomicAccess::SeqCst,
        }
    }

    /// The access that a store uses.
    pub fn store(&self) -> (access: AtomicAccess)
        ensures
            access == match *self {
                MemoryOrdering::Relaxed => AtomicAccess::Relaxed,
                MemoryOrdering::AcquireRelease => AtomicAccess::Release,
                MemoryOrdering::Sequential => AtomicAccess::SeqCst,
            },
    {
        match self {
            MemoryOrdering::Relaxed => AtomicAccess::Relaxed,
            MemoryOrdering::AcquireRelease => AtomicAccess::Release,
            MemoryOrdering::Sequential => AtomicAccess::SeqCst,
        }
    }

    /// The accesses that a compare-and-exchange uses on success and on failure.
    pub fn compare_exchange(&self) -> (accesses: (AtomicAccess, AtomicAccess))
        ensures
            accesses == match *self {
                MemoryOrdering::Relaxed => (AtomicAccess::Relaxed, AtomicAccess::Relaxed),
                MemoryOrdering::AcquireRelease => (AtomicAccess::AcqRel, AtomicAccess::Acquire),
                MemoryOrdering::Sequential => (AtomicAccess::SeqCst, AtomicAccess::SeqCst),
            },
    {
        match self {
            MemoryOrdering::Relaxed => (AtomicAccess::Relaxed, AtomicAccess::Relaxed),
            MemoryOrdering::AcquireRelease => (AtomicAccess::AcqRel, AtomicAccess::Acquire),
            MemoryOrdering::Sequential => (AtomicAccess::SeqCst, AtomicAccess::SeqCst),
        }
    }
}

/// Configuration of a rate limiter.
#[derive(Clone, Copy, Debug, PartialEq, Eq, Structural)]
pub struct RateLimiterConfig {
    /// The most tokens the bucket can hold.
    pub max_tokens: u32,
    /// Tokens that each refill interval adds.
    pub refill_rate: u32,
    /// Time between refills in milliseconds.
    pub refill_interval_ms: u64,
    /// Memory ordering strategy.
    pub ordering: MemoryOrdering,
}

impl RateLimiterConfig {
    /// A bucket needs room for a token, and refills need time between them.
    pub open spec fn valid(self) -> bool {
        self.max_tokens > 0 && self.refill_interval_ms > 0
    }

    /// Configuration for general player actions: 50 tokens, 10 more every second.
    pub fn game_server_default() -> (config: Self)
        ensures
            config == (RateLimiterConfig {
                max_tokens: 50,
                refill_rate: 10,
                refill_interval_ms: 1000,
                ordering: MemoryOrdering::AcquireRelease,
            }),
    {
        RateLimiterConfig::default()
    }

    /// Configuration for high-frequency operations: 20 tokens, 20 more every second.
    pub fn high_frequency() -> (config: Self)
        ensures
            config == (RateLimiterConfig {
                max_tokens: 20,
                refill_rate: 20,
                refill_interval_ms: 1000,
                ordering: MemoryOrdering::AcquireRelease,
            }),
    {
        RateLimiterConfig {
            max_tokens: 20,
            refill_rate: 20,
            refill_interval_ms: 1000,
            ordering: MemoryOrdering::AcquireRelease,
        }
    }

    /// Configuration for low-frequency operations: 5 tokens, one more every 10 seconds.
    pub fn low_frequency() -> (config: Self)
        ensures
            config == (RateLimiterConfig {
                max_tokens: 5,
                refill_rate: 1,
                refill_interval_ms: 10_000,
                ordering: MemoryOrdering::Sequential,
            }),
    {
        RateLimiterConfig {
            max_tokens: 5,
            refill_rate: 1,
            refill_interval_ms: 10_000,
            ordering: MemoryOrdering::Sequential,
        }
    }
}

impl Default for RateLimiterConfig {
    /// 50 tokens, 10 more every second.
    fn default() -> (config: Self)
        ensures
            config == (RateLimiterConfig {
                max_tokens: 50,
                refill_rate: 10,
                refill_interval_ms: 1000,
                ordering: MemoryOrdering::AcquireRelease,
            }),
    {
        RateLimiterConfig {
            max_tokens: 50,
            refill_rate: 10,
            refill_interval_ms: 1000,
            ordering: MemoryOrdering::AcquireRelease,
        }
    }
}

/// The state of a bucket. Times are milliseconds since the bucket was made.
pub struct Bucket {
    pub config: RateLimiterConfig,
    /// The clock that times are read from.
    pub clock: MonotonicClock,
    /// Reading of the clock at which the bucket was made.
    pub made_at: u64,
    pub tokens: u32,
    pub last_refill: u64,
    pub last_access: u64,
    pub acquired: u64,
    pub rejected: u64,
    pub refills: u64,
}

pub open spec fn min_int(a: int, b: int) -> int {
    if a <= b {
        a
    } else {
        b
    }
}

impl Bucket {
    /// A full bucket, made when `clock` read `now`.
    pub open spec fn full(config: RateLimiterConfig, clock: MonotonicClock, now: u64) -> Bucket {
        Bucket {
            config,
            clock,
            made_at: now,
            tokens: config.max_tokens,
            last_refill: 0,
            last_access: 0,
            acquired: 0,
            rejected: 0,
            refills: 0,
        }
    }

    /// A bucket never holds more than it has room for, and its times are readings of the clock.
    pub open spec fn wf(self) -> bool {
        &&& self.config.valid()
        &&& self.tokens <= self.config.max_tokens
        &&& self.made_at + self.last_access <= u64::MAX
    }

    /// Age of the bucket when the clock reads `now`.
    pub open spec fn age(self, now: u64) -> u64 {
        if now >= self.made_at {
            (now - self.made_at) as u64
        } else {
            0
        }
    }

    /// The clock reading of the last access.
    pub open spec fn accessed_at(self) -> int {
        self.made_at + self.last_access
    }

    /// Complete refill intervals that are credited at age `age`.
    pub open spec fn due_periods(self, age: u64) -> int {
        if age < self.last_refill {
            0
        } else {
            min_int(
                (age - self.last_refill) / self.config.refill_interval_ms as int,
                MAX_REFILL_PERIODS as int,
            )
        }
    }

    /// The bucket after the refill that is due at age `age`.
    ///
    /// With fewer than `MAX_REFILL_PERIODS` periods the time of the last refill advances by
    /// exactly those periods, so that no part of an interval is lost; with that many it is
    /// aligned anew.
    pub open spec fn refilled(self, age: u64) -> Bucket {
        let periods = self.due_periods(age);
        if periods == 0 {
            self
        } else {
            Bucket {
                tokens: min_int(
                    self.tokens + self.config.refill_rate * periods,
                    self.config.max_tokens as int,
                ) as u32,
                last_refill: if periods >= MAX_REFILL_PERIODS {
                    (age - age % self.config.refill_interval_ms) as u64
                } else {
                    (self.last_refill + periods * self.config.refill_interval_ms) as u64
                },
                refills: self.refills.wrapping_add(1),
                ..self
            }
        }
    }

    /// Whether `n` tokens are granted at age `age`.
    pub open spec fn grants(self, n: u32, age: u64) -> bool {
        n == 0 || self.refilled(age).tokens >= n
    }

    /// The bucket after a request for `n` tokens at age `age`: either all of them are taken, or
    /// none. A request that no full bucket could meet is refused without touching the bucket.
    pub open spec fn after_request(self, n: u32, age: u64) -> Bucket {
        if n == 0 {
            self
        } else if n > self.config.max_tokens {
            Bucket { rejected: self.rejected.wrapping_add(1), ..self }
        } else {
            let bucket = Bucket { last_access: age, ..self }.refilled(age);
            if bucket.tokens >= n {
                Bucket {
                    tokens: (bucket.tokens - n) as u32,
                    acquired: bucket.acquired.wrapping_add(n as u64),
                    ..bucket
                }
            } else {
                Bucket { rejected: bucket.rejected.wrapping_add(1), ..bucket }
            }
        }
    }

    /// Whether more than `duration` milliseconds have passed since the last access.
    pub open spec fn inactive(self, duration: u64, age: u64) -> bool {
        age - self.last_access > duration
    }
}

/// Token bucket rate limiter with automatic refill.
#[derive(Clone, Copy)]
pub struct RateLimiter {
    tokens: u32,
    max_tokens: u32,
    refill_rate: u32,
    refill_interval_ms: u64,
    last_refill_ms: u64,
    last_access_ms: u64,
    clock: MonotonicClock,
    start_ms: u64,
    total_acquired: u64,
    total_rejected: u64,
    total_refills: u64,
    ordering: MemoryOrdering,
}

impl View for RateLimiter {
    type V = Bucket;

    closed spec fn view(&self) -> Bucket {
        Bucket {
            config: RateLimiterConfig {
                max_tokens: self.max_tokens,
                refill_rate: self.refill_rate,
                refill_interval_ms: self.refill_interval_ms,
                ordering: self.ordering,
            },
            clock: self.clock,
            made_at: self.start_ms,
            tokens: self.tokens,
            last_refill: self.last_refill_ms,
            last_access: self.last_access_ms,
            acquired: self.total_acquired,
            rejected: self.total_rejected,
            refills: self.total_refills,
        }
    }
}

impl RateLimiter {
    /// A full bucket of `max_tokens` tokens that gains `refill_rate` of them every second.
    pub fn new(max_tokens: u32, refill_rate: u32) -> (limiter: Self)
        requires
            max_tokens > 0,
        ensures
            limiter@.wf(),
            limiter@ == Bucket::full(
                RateLimiterConfig {
                    max_tokens,
                    refill_rate,
                    refill_interval_ms: 1000,
                    ordering: MemoryOrdering::AcquireRelease,
                },
                limiter@.clock,
                0,
            ),
    {
        let config = RateLimiterConfig::default();
        RateLimiter::with_config(RateLimiterConfig { max_tokens, refill_rate, ..config })
    }

    /// A full bucket with the given configuration.
    pub fn with_config(config: RateLimiterConfig) -> (limiter: Self)
        requires
            config.valid(),
        ensures
            limiter@.wf(),
            limiter@ == Bucket::full(config, limiter@.clock, 0),
    {
        RateLimiter::with_clock(config, MonotonicClock::start(), 0)
    }

    /// A full bucket with the given configuration, made when `clock` read `now`.
    pub fn with_clock(config: RateLimiterConfig, clock: MonotonicClock, now: u64) -> (limiter: Self)
        requires
            config.valid(),
        ensures
            limiter@.wf(),
            limiter@ == Bucket::full(config, clock, now),
    {
        RateLimiter {
            tokens: config.max_tokens,
            max_tokens: config.max_tokens,
            refill_rate: config.refill_rate,
            refill_interval_ms: config.refill_interval_ms,
            last_refill_ms: 0,
            last_access_ms: 0,
            clock,
            start_ms: now,
            total_acquired: 0,
            total_rejected: 0,
            total_refills: 0,
            ordering: config.ordering,
        }
    }

    /// Milliseconds since the bucket was made, with the clock at `now`.
    fn elapsed_millis_at(&self, now: u64) -> (age: u64)
        ensures
            age == self@.age(now),
    {
        now.saturating_sub(self.start_ms)
    }

    /// Credits the refill that is due with the clock at `now`.
    pub fn refill_tokens_at(&mut self, now: u64)
        requires
            old(self)@.wf(),
        ensures
            final(self)@.wf(),
            final(self)@ == old(self)@.refilled(old(self)@.age(now)),
    {
        let now_ms: u64 = self.elapsed_millis_at(now);
        let last_ms: u64 = self.last_refill_ms;
        let elapsed: u64 = now_ms.saturating_sub(last_ms);
        if elapsed < self.refill_interval_ms {
            proof {
                if now_ms >= last_ms {
                    assert((now_ms - last_ms) / self.refill_interval_ms as int == 0)
                        by (nonlinear_arith)
                        requires
                            0 <= now_ms - last_ms < self.refill_interval_ms,
                    ;
                }
            }
            return;
        }
        let whole: u64 = elapsed / self.refill_interval_ms;
        let periods: u64 = if whole < MAX_REFILL_PERIODS {
            whole
        } else {
            MAX_REFILL_PERIODS
        };
        let interval: u64 = self.refill_interval_ms;
        proof {
            assert(whole >= 1 && whole * interval <= elapsed) by (nonlinear_arith)
                requires
                    whole == elapsed / interval,
                    elapsed >= interval,
                    interval > 0,
            ;
            assert(periods * interval <= whole * interval) by (nonlinear_arith)
                requires
                    periods <= whole,
            ;
            assert(now_ms % interval <= now_ms);
        }
        self.last_refill_ms = if periods >= MAX_REFILL_PERIODS {
            now_ms - now_ms % self.refill_interval_ms
        } else {
            last_ms + periods * self.refill_interval_ms
        };
        proof {
            assert(self.refill_rate * periods <= 0xffff_ffff * 100) by (nonlinear_arith)
                requires
                    self.refill_rate <= 0xffff_ffff,
                    periods <= 100,
            ;
        }
        let sum: u64 = self.tokens as u64 + self.refill_rate as u64 * periods;
        self.tokens = if sum < self.max_tokens as u64 {
            sum as u32
        } else {
            self.max_tokens
        };
        self.total_refills = self.total_refills.wrapping_add(1);
    }

    /// Requests `n` tokens with the clock at `now`. Either all of them are granted, or none.
    pub fn try_acquire_n_at(&mut self, n: u32, now: u64) -> (granted: bool)
        requires
            old(self)@.wf(),
        ensures
            final(self)@.wf(),
            granted == old(self)@.grants(n, old(self)@.age(now)),
            final(self)@ == old(self)@.after_request(n, old(self)@.age(now)),
    {
        if n == 0 {
            return true;
        }
        if n > self.max_tokens {
            self.total_rejected = self.total_rejected.wrapping_add(1);
            return false;
        }
        self.last_access_ms = self.elapsed_millis_at(now);
        self.refill_tokens_at(now);
        if self.tokens < n {
            self.total_rejected = self.total_rejected.wrapping_add(1);
            return false;
        }
        self.tokens = self.tokens - n;
        self.total_acquired = self.total_acquired.wrapping_add(n as u64);
        true
    }

    /// Requests `n` tokens now. Either all of them are granted, or none.
    pub fn try_acquire_n(&mut self, n: u32) -> (granted: bool)
        requires
            old(self)@.wf(),
        ensures
            final(self)@.wf(),
            n <= old(self)@.tokens ==> granted,
            n > old(self)@.config.max_tokens ==> !granted,
            exists|at: std::time::Instant|
                ({
                    let age = old(self)@.age(#[trigger] old(self)@.clock.reading(at));
                    &&& granted == old(self)@.grants(n, age)
                    &&& final(self)@ == old(self)@.after_request(n, age)
                }),
    {
        let now: u64 = self.clock.now_ms();
        proof {
            lemma_refill_adds(self@, self@.age(now));
        }
        self.try_acquire_n_at(n, now)
    }

    /// Requests a single token now.
    pub fn try_acquire(&mut self) -> (granted: bool)
        requires
            old(self)@.wf(),
        ensures
            final(self)@.wf(),
            old(self)@.tokens > 0 ==> granted,
            exists|at: std::time::Instant|
                ({
                    let age = old(self)@.age(#[trigger] old(self)@.clock.reading(at));
                    &&& granted == old(self)@.grants(1, age)
                    &&& final(self)@ == old(self)@.after_request(1, age)
                }),
    {
        self.try_acquire_n(1)
    }

    /// The tokens that are available with the clock at `now`, after the refill that is due.
    pub fn available_tokens_at(&mut self, now: u64) -> (tokens: u32)
        requires
            old(self)@.wf(),
        ensures
            final(self)@.wf(),
            final(self)@ == old(self)@.refilled(old(self)@.age(now)),
            tokens == final(self)@.tokens,
    {
        self.refill_tokens_at(now);
        self.tokens
    }

    /// The tokens that are available now, after the refill that is due.
    pub fn available_tokens(&mut self) -> (tokens: u32)
        requires
            old(self)@.wf(),
        ensures
            final(self)@.wf(),
            tokens == final(self)@.tokens,
            exists|at: std::time::Instant|
                final(self)@ == old(self)@.refilled(
                    old(self)@.age(#[trigger] old(self)@.clock.reading(at)),
                ),
    {
        let now: u64 = self.clock.now_ms();
        self.available_tokens_at(now)
    }

    /// Whether the bucket has not been used for more than the given time, with the clock at
    /// `now`.
    pub fn is_inactive_at(&self, inactive_duration_ms: u64, now: u64) -> (inactive: bool)
        ensures
            inactive == self@.inactive(inactive_duration_ms, self@.age(now)),
    {
        self.elapsed_millis_at(now).saturating_sub(self.last_access_ms) > inactive_duration_ms
    }

    /// Whether the bucket has not been used for more than the given time.
    pub fn is_inactive(&self, inactive_duration_ms: u64) -> (inactive: bool)
        ensures
            exists|at: std::time::Instant|
                inactive == self@.inactive(
                    inactive_duration_ms,
                    self@.age(#[trigger] self@.clock.reading(at)),
                ),
    {
        let now: u64 = self.clock.now_ms();
        assert(self@.clock == self.clock);
        self.is_inactive_at(inactive_duration_ms, now)
    }

    /// Whether the bucket has not been used for more than five minutes.
    pub fn is_inactive_default(&self) -> (inactive: bool)
        ensures
            exists|at: std::time::Instant|
                inactive == self@.inactive(
                    300_000,
                    self@.age(#[trigger] self@.clock.reading(at)),
                ),
    {
        self.is_inactive(300_000)
    }

    /// The counters of the bucket.
    pub fn metrics(&self) -> (metrics: RateLimiterMetrics)
        ensures
            metrics == metrics_of(self@),
    {
        RateLimiterMetrics {
            total_acquired: self.total_acquired,
            total_rejected: self.total_rejected,
            total_refills: self.total_refills,
            current_tokens: self.tokens,
            max_tokens: self.max_tokens,
        }
    }
}

/// Counters of a rate limiter.
#[derive(Clone, Copy, Debug, PartialEq, Eq, Structural)]
pub struct RateLimiterMetrics {
    /// Tokens acquired across all requests.
    pub total_acquired: u64,
    /// Requests refused for want of tokens.
    pub total_rejected: u64,
    /// Refills performed.
    pub total_refills: u64,
    /// Tokens available.
    pub current_tokens: u32,
    /// The most tokens the bucket can hold.
    pub max_tokens: u32,
}

/// The counters of a bucket in the given state.
pub open spec fn metrics_of(bucket: Bucket) -> RateLimiterMetrics {
    RateLimiterMetrics {
        total_acquired: bucket.acquired,
        total_rejected: bucket.rejected,
        total_refills: bucket.refills,
        current_tokens: bucket.tokens,
        max_tokens: bucket.config.max_tokens,
    }
}

impl RateLimiterMetrics {
    /// Whether the limiter is under heavy load: fewer than half of what it counted was granted,
    /// or it is out of tokens.
    pub fn is_under_pressure(&self) -> (pressed: bool)
        ensures
            pressed == (2 * self.total_acquired < self.total_acquired + self.total_rejected
                || self.current_tokens == 0),
    {
        self.total_acquired < self.total_rejected || self.current_tokens == 0
    }
}

/// The limiters of all tracked addresses, and what has become of them.
pub struct LimiterPool {
    /// The bucket of each tracked address.
    pub buckets: Map<IpKey, Bucket>,
    /// Configuration of new buckets.
    pub config: RateLimiterConfig,
    /// The clock that times are read from.
    pub clock: MonotonicClock,
    pub cleanup_interval_ms: u64,
    pub inactive_duration_ms: u64,
    /// Buckets made so far.
    pub created: u64,
    /// Buckets dropped so far.
    pub cleaned: u64,
    /// Percentage of the capacity in use when inactive buckets were last dropped.
    pub pressure: usize,
}

/// `after` is what is left of `before` when the least recently used buckets are dropped until
/// `target` are left.
pub open spec fn evicted(
    before: Map<IpKey, Bucket>,
    after: Map<IpKey, Bucket>,
    target: nat,
) -> bool {
    &&& after.submap_of(before)
    &&& after.len() == target
    &&& forall|kept: IpKey, dropped: IpKey|
        #![trigger after.contains_key(kept), before.contains_key(dropped)]
        after.contains_key(kept) && before.contains_key(dropped) && !after.contains_key(dropped)
            ==> before[dropped].accessed_at() <= before[kept].accessed_at()
}

/// `after` is what is left of `before` when room has been made for another bucket: nothing
/// changes below 90 % of the capacity.
pub open spec fn room_made(before: Map<IpKey, Bucket>, after: Map<IpKey, Bucket>) -> bool {
    if before.len() < EMERGENCY_CLEANUP_SIZE {
        after == before
    } else {
        evicted(before, after, EMERGENCY_TARGET_SIZE as nat)
    }
}

/// Looking up the limiter of the address `key`, with the clock at `now`, turns `before` into
/// `after`.
pub open spec fn looked_up(before: LimiterPool, after: LimiterPool, key: IpKey, now: u64) -> bool {
    exists|room: Map<IpKey, Bucket>| #[trigger]
        room_made(before.buckets, room) && after == before.with_bucket(room, key, now)
}

/// A request for `n` tokens of the limiter of the address `key`, with the clock at `now`, turns
/// `before` into `after`, and is granted or not if the limiter is tracked.
pub open spec fn acquired(
    before: LimiterPool,
    after: LimiterPool,
    key: IpKey,
    n: u32,
    now: u64,
    granted: Option<bool>,
) -> bool {
    if before.buckets.contains_key(key) {
        let bucket = before.buckets[key];
        &&& granted == Some(bucket.grants(n, bucket.age(now)))
        &&& after == before.with_request(key, n, now)
    } else {
        granted is None && after == before
    }
}

/// A request for `n` tokens by the address `key`, with the clock at `now`, turns `before` into
/// `after` and is granted or not.
pub open spec fn requested(
    before: LimiterPool,
    after: LimiterPool,
    key: IpKey,
    n: u32,
    now: u64,
    granted: bool,
) -> bool {
    exists|room: Map<IpKey, Bucket>| #[trigger]
        room_made(before.buckets, room) && ({
            let pool = before.with_bucket(room, key, now);
            let bucket = pool.buckets[key];
            &&& granted == bucket.grants(n, bucket.age(now))
            &&& after == pool.with_request(key, n, now)
        })
}

/// A request for one token that an address needs from its own bucket first and then from the one
/// that all addresses share turns the buckets `own` and `shared` into `own_after` and
/// `shared_after`. It is refused if either is out of tokens; the shared one is not asked when the
/// own one refuses.
pub open spec fn requested_both(
    own: LimiterPool,
    own_after: LimiterPool,
    shared: Bucket,
    shared_after: Bucket,
    key: IpKey,
    now: u64,
    refused: bool,
) -> bool {
    ||| refused && requested(own, own_after, key, 1, now, false) && shared_after == shared
    ||| {
        &&& requested(own, own_after, key, 1, now, true)
        &&& refused == !shared.grants(1, shared.age(now))
        &&& shared_after == shared.after_request(1, shared.age(now))
    }
}

impl LimiterPool {
    /// A pool that tracks no address yet.
    pub open spec fn fresh(config: RateLimiterConfig, clock: MonotonicClock) -> LimiterPool {
        LimiterPool {
            buckets: Map::empty(),
            config,
            clock,
            cleanup_interval_ms: 60_000,
            inactive_duration_ms: 300_000,
            created: 0,
            cleaned: 0,
            pressure: 0,
        }
    }

    /// Never more buckets than the capacity, all of them valid and of the same configuration and
    /// clock. The counters wrap around; what has been made less what has been dropped is what is
    /// tracked.
    pub open spec fn wf(self) -> bool {
        &&& self.buckets.dom().finite()
        &&& self.buckets.len() <= MAX_TRACKED_IPS
        &&& self.created.wrapping_sub(self.cleaned) == self.buckets.len()
        &&& forall|key: IpKey| #[trigger]
            self.buckets.contains_key(key) ==> {
                &&& crate::addr::is_ip_key(key)
                &&& self.buckets[key].wf()
                &&& self.buckets[key].config == self.config
                &&& self.buckets[key].clock == self.clock
            }
    }

    /// The pool when `room` is left of its buckets and the address `key` has been looked up.
    pub open spec fn with_bucket(self, room: Map<IpKey, Bucket>, key: IpKey, now: u64) -> LimiterPool {
        LimiterPool {
            buckets: if room.contains_key(key) {
                room
            } else {
                room.insert(key, Bucket::full(self.config, self.clock, now))
            },
            cleaned: self.cleaned.wrapping_add((self.buckets.len() - room.len()) as u64),
            created: if room.contains_key(key) {
                self.created
            } else {
                self.created.wrapping_add(1)
            },
            ..self
        }
    }

    /// The pool after a request for `n` tokens by the tracked address `key`.
    pub open spec fn with_request(self, key: IpKey, n: u32, now: u64) -> LimiterPool {
        let bucket = self.buckets[key];
        LimiterPool {
            buckets: self.buckets.insert(key, bucket.after_request(n, bucket.age(now))),
            ..self
        }
    }

    /// How long a bucket may stay unused before it is dropped: half as long with more than 80 %
    /// of the capacity in use.
    pub open spec fn allowed_idle_ms(self) -> u64 {
        if self.buckets.len() * 100 / MAX_TRACKED_IPS as nat > 80 {
            self.inactive_duration_ms / 2
        } else {
            self.inactive_duration_ms
        }
    }

    /// The buckets that have been used recently, with the clock at `now`.
    pub open spec fn active_buckets(self, now: u64) -> Map<IpKey, Bucket> {
        self.buckets.restrict(
            Set::new(
                |key: IpKey|
                    self.buckets.contains_key(key) && !self.buckets[key].inactive(
                        self.allowed_idle_ms(),
                        self.buckets[key].age(now),
                    ),
            ),
        )
    }

    /// Milliseconds to wait before inactive buckets are dropped again.
    pub open spec fn next_cleanup_delay(self) -> u64 {
        if self.pressure > 80 {
            10_000
        } else if self.pressure > 50 {
            30_000
        } else {
            self.cleanup_interval_ms
        }
    }

    /// The pool after inactive buckets have been dropped.
    pub open spec fn cleaned_up(self, now: u64) -> LimiterPool {
        let active = self.active_buckets(now);
        LimiterPool {
            buckets: active,
            cleaned: self.cleaned.wrapping_add((self.buckets.len() - active.len()) as u64),
            pressure: (active.len() * 100 / MAX_TRACKED_IPS as nat) as usize,
            ..self
        }
    }
}

/// Rate limiting per IP address, with a bounded number of tracked addresses.
pub struct IpRateLimiterManager {
    limiters: Table<IpKey, RateLimiter>,
    config: RateLimiterConfig,
    clock: MonotonicClock,
    cleanup_interval_ms: u64,
    inactive_duration_ms: u64,
    total_created: u64,
    total_cleaned: u64,
    memory_pressure: usize,
}

impl View for IpRateLimiterManager {
    type V = LimiterPool;

    closed spec fn view(&self) -> LimiterPool {
        LimiterPool {
            buckets: self.limiters@.map_values(|limiter: RateLimiter| limiter@),
            config: self.config,
            clock: self.clock,
            cleanup_interval_ms: self.cleanup_interval_ms,
            inactive_duration_ms: self.inactive_duration_ms,
            created: self.total_created,
            cleaned: self.total_cleaned,
            pressure: self.memory_pressure,
        }
    }
}

/// The limiter of an address, as its manager hands it out. There is one limiter for each address:
/// what is taken through one handle is gone for every other, and for the manager. A handle goes
/// with the address: when its limiter has been dropped and the address is looked up again, it
/// stands for the limiter that was made then.
#[derive(Clone, Copy)]
pub struct LimiterHandle {
    ip: IpAddr,
}

impl View for LimiterHandle {
    type V = IpKey;

    closed spec fn view(&self) -> IpKey {
        self.ip.spec_key()
    }
}

impl LimiterHandle {
    /// The address that the limiter belongs to.
    pub fn ip(&self) -> (ip: IpAddr)
        ensures
            ip.spec_key() == self@,
    {
        self.ip
    }
}

/// `<[T]>::sort_by_key`, by the second component: the same entries, in ascending order.
#[verifier::external_body]
fn sort_by_access(entries: &mut Vec<(IpKey, u64)>)
    ensures
        final(entries)@.to_multiset() == old(entries)@.to_multiset(),
        forall|i: int, j: int|
            0 <= i <= j < final(entries)@.len() ==> (#[trigger] final(entries)@[i]).1 <= (
            #[trigger] final(entries)@[j]).1,
{
    entries.sort_by_key(|entry| entry.1)
}

impl IpRateLimiterManager {
    /// A manager that tracks no address yet. Buckets that have not been used for five minutes
    /// are dropped, once a minute.
    pub fn new(config: RateLimiterConfig) -> (manager: Self)
        ensures
            manager@.wf(),
            manager@ == LimiterPool::fresh(config, manager@.clock),
    {
        IpRateLimiterManager::with_clock(config, MonotonicClock::start())
    }

    /// A manager that tracks no address yet and goes by the given clock.
    pub fn with_clock(config: RateLimiterConfig, clock: MonotonicClock) -> (manager: Self)
        ensures
            manager@.wf(),
            manager@ == LimiterPool::fresh(config, clock),
    {
        let manager = IpRateLimiterManager {
            limiters: Table::with_capacity(1024),
            config,
            clock,
            cleanup_interval_ms: 60_000,
            inactive_duration_ms: 300_000,
            total_created: 0,
            total_cleaned: 0,
            memory_pressure: 0,
        };
        assert(manager@.buckets =~= Map::<IpKey, Bucket>::empty());
        manager
    }

    /// Drops the least recently used buckets until 70 % of the capacity is in use.
    fn emergency_cleanup(&mut self)
        requires
            old(self)@.wf(),
        ensures
            final(self)@.wf(),
            final(self).clock == old(self).clock,
            old(self)@.buckets.len() <= EMERGENCY_TARGET_SIZE ==> final(self)@ == old(self)@,
            old(self)@.buckets.len() > EMERGENCY_TARGET_SIZE ==> {
                &&& evicted(
                    old(self)@.buckets,
                    final(self)@.buckets,
                    EMERGENCY_TARGET_SIZE as nat,
                )
                &&& final(self)@ == (LimiterPool {
                    buckets: final(self)@.buckets,
                    cleaned: old(self)@.cleaned.wrapping_add(
                        (old(self)@.buckets.len() - EMERGENCY_TARGET_SIZE) as u64,
                    ),
                    ..old(self)@
                })
            },
    {
        let ghost before = self.limiters@;
        let ghost pool = self@;
        proof {
            self.lemma_buckets();
        }
        let before_count: usize = self.limiters.len();
        if before_count <= EMERGENCY_TARGET_SIZE {
            return;
        }
        let to_remove: usize = before_count - EMERGENCY_TARGET_SIZE;
        let listed = self.limiters.entries();
        let ghost accesses = pool.buckets.map_values(|bucket: Bucket| bucket.accessed_at() as u64);
        let mut entries: Vec<(IpKey, u64)> = Vec::new();
        let mut i: usize = 0;
        while i < listed.len()
            invariant
                i <= listed.len(),
                entries@.len() == i,
                self@ == pool,
                self.limiters@ == before,
                pool.wf(),
                lists(listed@, before),
                forall|j: int|
                    0 <= j < i ==> (#[trigger] entries@[j]).0 == listed@[j].0 && entries@[j].1
                        == listed@[j].1@.accessed_at(),
            decreases listed.len() - i,
        {
            let (key, limiter) = listed[i];
            assert(before.contains_key(listed@[i as int].0));
            assert(pool.buckets.contains_key(key) && pool.buckets[key] == limiter@);
            entries.push((key, limiter.start_ms + limiter.last_access_ms));
            i = i + 1;
        }
        proof {
            lemma_listing_len(listed@, before);
            assert(lists(entries@, accesses)) by {
                assert forall|j: int| 0 <= j < entries@.len() implies #[trigger]
                    accesses.contains_key(entries@[j].0) && accesses[entries@[j].0]
                    == entries@[j].1 by {
                    assert(before.contains_key(listed@[j].0));
                }
                assert forall|key: IpKey| #[trigger] accesses.contains_key(key) implies exists|j: int|
                    0 <= j < entries@.len() && (#[trigger] entries@[j]).0 == key by {
                    assert(before.contains_key(key));
                    let j = choose|j: int| 0 <= j < listed@.len() && (#[trigger] listed@[j]).0 == key;
                    assert(entries@[j].0 == key);
                }
                assert forall|j: int, k: int| 0 <= j < k < entries@.len() implies (
                #[trigger] entries@[j]).0 != (#[trigger] entries@[k]).0 by {
                    assert(listed@[j].0 != listed@[k].0);
                }
            }
        }
        let ghost unsorted = entries@;
        sort_by_access(&mut entries);
        proof {
            lemma_permuted_listing(unsorted, entries@, accesses);
            lemma_listing_len(entries@, accesses);
            assert(accesses.dom() =~= before.dom());
        }
        let mut removed: usize = 0;
        while removed < to_remove
            invariant
                removed <= to_remove,
                to_remove == before_count - EMERGENCY_TARGET_SIZE,
                before_count == before.len(),
                before_count > EMERGENCY_TARGET_SIZE,
                entries@.len() == before.len(),
                before.dom().finite(),
                lists(entries@, accesses),
                accesses.dom() == before.dom(),
                self.limiters@.dom().finite(),
                self.limiters@.len() == before_count - removed,
                self.limiters@.submap_of(before),
                forall|key: IpKey| #[trigger]
                    self.limiters@.contains_key(key) <==> before.contains_key(key) && !exists|j: int|
                        0 <= j < removed && (#[trigger] entries@[j]).0 == key,
                self@ == (LimiterPool { buckets: self@.buckets, ..pool }),
                self.clock == old(self).clock,
            decreases to_remove - removed,
        {
            let key = entries[removed].0;
            let ghost kept = self.limiters@;
            assert(kept.contains_key(key)) by {
                assert(accesses.contains_key(entries@[removed as int].0));
                assert(forall|j: int|
                    0 <= j < removed ==> (#[trigger] entries@[j]).0 != entries@[removed as int].0);
            }
            self.limiters.remove(&key);
            removed = removed + 1;
            proof {
                assert forall|k: IpKey| #[trigger] self.limiters@.contains_key(k) <==> before.contains_key(
                    k,
                ) && !exists|j: int| 0 <= j < removed && (#[trigger] entries@[j]).0 == k by {
                    assert(kept.contains_key(k) <==> before.contains_key(k) && !exists|j: int|
                        0 <= j < removed - 1 && (#[trigger] entries@[j]).0 == k);
                    if k == key {
                        assert(entries@[removed - 1].0 == k);
                    }
                }
            }
        }
        self.total_cleaned = self.total_cleaned.wrapping_add(to_remove as u64);
        proof {
            self.lemma_buckets();
            let after = self@.buckets;
            assert(after.submap_of(pool.buckets)) by {
                assert forall|k: IpKey| #[trigger] after.contains_key(k) implies
                    pool.buckets.contains_key(k) && after[k] == pool.buckets[k] by {
                    assert(self.limiters@.contains_key(k));
                }
            }
            assert forall|kept: IpKey, dropped: IpKey|
                #![trigger after.contains_key(kept), pool.buckets.contains_key(dropped)]
                after.contains_key(kept) && pool.buckets.contains_key(dropped)
                    && !after.contains_key(dropped) implies pool.buckets[dropped].accessed_at()
                <= pool.buckets[kept].accessed_at() by {
                assert(self.limiters@.contains_key(kept) && !self.limiters@.contains_key(dropped));
                assert(before.contains_key(dropped));
                let d = choose|j: int| 0 <= j < removed && (#[trigger] entries@[j]).0 == dropped;
                assert(accesses.contains_key(kept));
                let k = choose|j: int| 0 <= j < entries@.len() && (#[trigger] entries@[j]).0 == kept;
                assert(k >= removed);
                assert(accesses.contains_key(entries@[d].0) && accesses.contains_key(entries@[k].0));
                assert(entries@[d].1 <= entries@[k].1);
                assert(pool.buckets[dropped].wf() && pool.buckets[kept].wf());
            }
        }
    }

    /// The limiter of `ip` with the clock at `now`, for use with this manager. An address that is
    /// not tracked yet gets a full bucket; before that, from 90 % of the capacity on, the least
    /// recently used buckets make room.
    pub fn get_limiter_at(&mut self, ip: IpAddr, now: u64) -> (limiter: Option<LimiterHandle>)
        requires
            old(self)@.wf(),
            old(self)@.config.valid(),
        ensures
            final(self)@.wf(),
            final(self)@.buckets.contains_key(ip.spec_key()),
            limiter matches Some(handle) && handle@ == ip.spec_key(),
            looked_up(old(self)@, final(self)@, ip.spec_key(), now),
    {
        proof {
            self.lemma_buckets();
        }
        if self.limiters.len() >= EMERGENCY_CLEANUP_SIZE {
            self.emergency_cleanup();
        }
        let ghost room = self@.buckets;
        proof {
            self.lemma_buckets();
            assert(room_made(old(self)@.buckets, room));
        }
        let key = ip.key();
        if self.limiters.len() >= MAX_TRACKED_IPS && !self.limiters.contains_key(&key) {
            return None;
        }
        if !self.limiters.contains_key(&key) {
            let limiter = RateLimiter::with_clock(self.config, self.clock, now);
            self.total_created = self.total_created.wrapping_add(1);
            self.limiters.insert(key, limiter);
            proof {
                self.lemma_buckets();
                assert(self@.buckets =~= room.insert(key, limiter@));
            }
        }
        Some(LimiterHandle { ip })
    }

    /// The limiter of `ip` now, for use with this manager.
    pub fn get_limiter(&mut self, ip: IpAddr) -> (limiter: Option<LimiterHandle>)
        requires
            old(self)@.wf(),
            old(self)@.config.valid(),
        ensures
            final(self)@.wf(),
            final(self)@.buckets.contains_key(ip.spec_key()),
            limiter matches Some(handle) && handle@ == ip.spec_key(),
            exists|at: std::time::Instant|
                looked_up(
                    old(self)@,
                    final(self)@,
                    ip.spec_key(),
                    #[trigger] old(self)@.clock.reading(at),
                ),
    {
        let now: u64 = self.clock.now_ms();
        self.get_limiter_at(ip, now)
    }

    /// Requests `n` tokens of a limiter with the clock at `now`, without any effect on the others.
    /// `None` if the manager has dropped it.
    pub fn acquire_at(&mut self, limiter: &LimiterHandle, n: u32, now: u64) -> (granted: Option<
        bool,
    >)
        requires
            old(self)@.wf(),
        ensures
            final(self)@.wf(),
            acquired(old(self)@, final(self)@, limiter@, n, now, granted),
    {
        let key = limiter.ip.key();
        let ghost pool = self@;
        proof {
            self.lemma_buckets();
        }
        match self.limiters.get(&key) {
            Some(mut limiter) => {
                let granted = limiter.try_acquire_n_at(n, now);
                proof {
                    lemma_request_keeps_config(pool.buckets[key], n, now);
                }
                self.limiters.insert(key, limiter);
                proof {
                    self.lemma_buckets();
                    assert(self@.buckets =~= pool.buckets.insert(key, limiter@));
                }
                Some(granted)
            },
            None => None,
        }
    }

    /// Requests `n` tokens of a limiter now, without any effect on the others. `None` if the
    /// manager has dropped it.
    pub fn acquire(&mut self, limiter: &LimiterHandle, n: u32) -> (granted: Option<bool>)
        requires
            old(self)@.wf(),
        ensures
            final(self)@.wf(),
            exists|at: std::time::Instant|
                acquired(
                    old(self)@,
                    final(self)@,
                    limiter@,
                    n,
                    #[trigger] old(self)@.clock.reading(at),
                    granted,
                ),
    {
        let now: u64 = self.clock.now_ms();
        self.acquire_at(limiter, n, now)
    }

    /// The counters of a limiter, unless the manager has dropped it.
    pub fn limiter_metrics(&self, limiter: &LimiterHandle) -> (metrics: Option<RateLimiterMetrics>)
        ensures
            metrics == if self@.buckets.contains_key(limiter@) {
                Some(metrics_of(self@.buckets[limiter@]))
            } else {
                None
            },
    {
        proof {
            self.lemma_buckets();
        }
        match self.limiters.get(&limiter.ip.key()) {
            Some(limiter) => Some(limiter.metrics()),
            None => None,
        }
    }

    /// Requests `n` tokens for `ip` with the clock at `now`.
    pub fn try_acquire_n_at(&mut self, ip: IpAddr, n: u32, now: u64) -> (granted: bool)
        requires
            old(self)@.wf(),
            old(self)@.config.valid(),
        ensures
            final(self)@.wf(),
            final(self)@.config == old(self)@.config,
            requested(old(self)@, final(self)@, ip.spec_key(), n, now, granted),
    {
        match self.get_limiter_at(ip, now) {
            None => false,
            Some(limiter) => match self.acquire_at(&limiter, n, now) {
                None => false,
                Some(granted) => granted,
            },
        }
    }

    /// Requests `n` tokens for `ip` now.
    pub fn try_acquire_n(&mut self, ip: IpAddr, n: u32) -> (granted: bool)
        requires
            old(self)@.wf(),
            old(self)@.config.valid(),
        ensures
            final(self)@.wf(),
            final(self)@.config == old(self)@.config,
            exists|at: std::time::Instant|
                requested(
                    old(self)@,
                    final(self)@,
                    ip.spec_key(),
                    n,
                    #[trigger] old(self)@.clock.reading(at),
                    granted,
                ),
    {
        let now: u64 = self.clock.now_ms();
        self.try_acquire_n_at(ip, n, now)
    }

    /// Requests a token for `ip` now.
    pub fn try_acquire(&mut self, ip: IpAddr) -> (granted: bool)
        requires
            old(self)@.wf(),
            old(self)@.config.valid(),
        ensures
            final(self)@.wf(),
            final(self)@.config == old(self)@.config,
            exists|at: std::time::Instant|
                requested(
                    old(self)@,
                    final(self)@,
                    ip.spec_key(),
                    1,
                    #[trigger] old(self)@.clock.reading(at),
                    granted,
                ),
    {
        self.try_acquire_n(ip, 1)
    }

    /// Drops the buckets that have not been used recently, with the clock at `now`.
    pub fn cleanup_at(&mut self, now: u64)
        requires
            old(self)@.wf(),
        ensures
            final(self)@.wf(),
            final(self)@ == old(self)@.cleaned_up(now),
    {
        let ghost pool = self@;
        let ghost before = self.limiters@;
        proof {
            self.lemma_buckets();
        }
        let before_count: usize = self.limiters.len();
        let size_ratio: usize = before_count * 100 / MAX_TRACKED_IPS;
        let allowed: u64 = if size_ratio > 80 {
            self.inactive_duration_ms / 2
        } else {
            self.inactive_duration_ms
        };
        self.limiters.retain(
            |_key: &IpKey, limiter: &RateLimiter| -> (keep: bool)
                ensures
                    keep != limiter@.inactive(allowed, limiter@.age(now))
                { !limiter.is_inactive_at(allowed, now) },
        );
        proof {
            self.lemma_buckets();
            lemma_submap_len(self.limiters@, before);
            assert(self@.buckets =~= pool.active_buckets(now)) by {
                assert forall|key: IpKey| #[trigger]
                    self@.buckets.contains_key(key) <==> pool.active_buckets(now).contains_key(
                        key,
                    ) by {
                    if before.contains_key(key) {
                        let limiter = before[key];
                        assert(self.limiters@.contains_key(key) == !limiter@.inactive(
                            allowed,
                            limiter@.age(now),
                        ));
                    }
                }
            }
        }
        let left: usize = self.limiters.len();
        self.total_cleaned = self.total_cleaned.wrapping_add((before_count - left) as u64);
        self.memory_pressure = left * 100 / MAX_TRACKED_IPS;
    }

    /// Drops the buckets that have not been used recently.
    pub fn cleanup(&mut self)
        requires
            old(self)@.wf(),
        ensures
            final(self)@.wf(),
            exists|at: std::time::Instant|
                final(self)@ == old(self)@.cleaned_up(#[trigger] old(self)@.clock.reading(at)),
    {
        let now: u64 = self.clock.now_ms();
        self.cleanup_at(now)
    }

    /// The number of tracked addresses.
    pub fn active_ips(&self) -> (n: usize)
        ensures
            n == self@.buckets.len(),
    {
        proof {
            self.lemma_buckets();
        }
        self.limiters.len()
    }

    /// Milliseconds to wait before inactive buckets are dropped again: the higher the pressure,
    /// the sooner.
    pub fn next_cleanup_delay_ms(&self) -> (ms: u64)
        ensures
            ms == self@.next_cleanup_delay(),
    {
        if self.memory_pressure > 80 {
            10_000
        } else if self.memory_pressure > 50 {
            30_000
        } else {
            self.cleanup_interval_ms
        }
    }

    /// Sets how often inactive buckets are dropped, and after how long a bucket is inactive.
    pub fn set_cleanup(&mut self, cleanup_interval_ms: u64, inactive_duration_ms: u64)
        ensures
            final(self)@ == (LimiterPool {
                cleanup_interval_ms,
                inactive_duration_ms,
                ..old(self)@
            }),
    {
        self.cleanup_interval_ms = cleanup_interval_ms;
        self.inactive_duration_ms = inactive_duration_ms;
    }

    /// The counters of every tracked address, in no particular order.
    pub fn all_metrics(&self) -> (metrics: Vec<(IpAddr, RateLimiterMetrics)>)
        requires
            self@.wf(),
        ensures
            metrics@.len() == self@.buckets.len(),
            forall|i: int|
                0 <= i < metrics@.len() ==> self@.buckets.contains_key(
                    (#[trigger] metrics@[i]).0.spec_key(),
                ) && metrics@[i].1 == metrics_of(self@.buckets[metrics@[i].0.spec_key()]),
            forall|key: IpKey| #[trigger]
                self@.buckets.contains_key(key) ==> exists|i: int|
                    0 <= i < metrics@.len() && (#[trigger] metrics@[i]).0.spec_key() == key,
    {
        let listed = self.limiters.entries();
        proof {
            self.lemma_buckets();
            lemma_listing_len(listed@, self.limiters@);
        }
        let mut metrics: Vec<(IpAddr, RateLimiterMetrics)> = Vec::new();
        let mut i: usize = 0;
        while i < listed.len()
            invariant
                i <= listed.len(),
                metrics@.len() == i,
                self@.wf(),
                lists(listed@, self.limiters@),
                forall|j: int|
                    0 <= j < i ==> (#[trigger] metrics@[j]).0.spec_key() == listed@[j].0
                        && metrics@[j].1 == metrics_of(listed@[j].1@),
            decreases listed.len() - i,
        {
            let (key, limiter) = listed[i];
            proof {
                self.lemma_buckets();
                assert(self.limiters@.contains_key(listed@[i as int].0));
            }
            metrics.push((IpAddr::from_key(key), limiter.metrics()));
            i = i + 1;
        }
        proof {
            assert forall|j: int| 0 <= j < metrics@.len() implies self@.buckets.contains_key(
                (#[trigger] metrics@[j]).0.spec_key(),
            ) && metrics@[j].1 == metrics_of(self@.buckets[metrics@[j].0.spec_key()]) by {
                assert(self.limiters@.contains_key(listed@[j].0));
            }
            assert forall|key: IpKey| #[trigger] self@.buckets.contains_key(key) implies exists|j: int|
                0 <= j < metrics@.len() && (#[trigger] metrics@[j]).0.spec_key() == key by {
                assert(self.limiters@.contains_key(key));
                let j = choose|j: int| 0 <= j < listed@.len() && (#[trigger] listed@[j]).0 == key;
                assert(metrics@[j].0.spec_key() == key);
            }
        }
        metrics
    }

    /// The counters of the manager itself.
    pub fn manager_metrics(&self) -> (metrics: ManagerMetrics)
        requires
            self@.wf(),
        ensures
            metrics == (ManagerMetrics {
                active_ips: self@.buckets.len() as usize,
                total_created: self@.created,
                total_cleaned: self@.cleaned,
                capacity_remaining: (MAX_TRACKED_IPS - self@.buckets.len()) as usize,
            }),
    {
        let active_ips: usize = self.active_ips();
        ManagerMetrics {
            active_ips,
            total_created: self.total_created,
            total_cleaned: self.total_cleaned,
            capacity_remaining: MAX_TRACKED_IPS - active_ips,
        }
    }

    /// Percentage of the capacity that was in use when inactive buckets were last dropped.
    pub fn memory_pressure(&self) -> (pressure: usize)
        ensures
            pressure == self@.pressure,
    {
        self.memory_pressure
    }

    /// The model has a bucket for every limiter.
    proof fn lemma_buckets(&self)
        ensures
            self@.buckets.dom() == self.limiters@.dom(),
            forall|key: IpKey| #[trigger]
                self.limiters@.contains_key(key) ==> self@.buckets[key] == self.limiters@[key]@,
    {
        assert(self@.buckets.dom() =~= self.limiters@.dom());
    }
}

/// Counters of an [`IpRateLimiterManager`].
#[derive(Clone, Copy, Debug, PartialEq, Eq, Structural)]
pub struct ManagerMetrics {
    /// Addresses tracked now.
    pub active_ips: usize,
    /// Rate limiters made since startup.
    pub total_created: u64,
    /// Rate limiters dropped since startup.
    pub total_cleaned: u64,
    /// Addresses that could still be tracked.
    pub capacity_remaining: usize,
}

/// A request changes neither the configuration of a bucket nor its validity.
pub proof fn lemma_request_keeps_config(bucket: Bucket, n: u32, now: u64)
    requires
        bucket.wf(),
    ensures
        bucket.after_request(n, bucket.age(now)).config == bucket.config,
        bucket.after_request(n, bucket.age(now)).wf(),
{
    let age = bucket.age(now);
    lemma_refill_adds(Bucket { last_access: age, ..bucket }, age);
}

/// Requests one token for `ip` with the clock at `now`, from its own bucket first and then from
/// the one that all addresses share. Comes back with whether either of them is out of tokens.
pub fn limit_reached_at(
    own: &mut IpRateLimiterManager,
    shared: &mut RateLimiter,
    ip: IpAddr,
    now: u64,
) -> (reached: bool)
    requires
        old(own)@.wf(),
        old(own)@.config.valid(),
        old(shared)@.wf(),
    ensures
        final(own)@.wf(),
        final(own)@.config == old(own)@.config,
        final(shared)@.wf(),
        requested_both(
            old(own)@,
            final(own)@,
            old(shared)@,
            final(shared)@,
            ip.spec_key(),
            now,
            reached,
        ),
{
    if !own.try_acquire_n_at(ip, 1, now) {
        return true;
    }
    !shared.try_acquire_n_at(1, now)
}

/// A refill takes no token away and never overfills the bucket.
pub proof fn lemma_refill_adds(bucket: Bucket, age: u64)
    requires
        bucket.wf(),
    ensures
        bucket.tokens <= bucket.refilled(age).tokens <= bucket.config.max_tokens,
        bucket.refilled(age).config == bucket.config,
{
    let periods = bucket.due_periods(age);
    if age >= bucket.last_refill {
        assert((age - bucket.last_refill) / bucket.config.refill_interval_ms as int >= 0)
            by (nonlinear_arith)
            requires
                age >= bucket.last_refill,
                bucket.config.refill_interval_ms > 0,
        ;
    }
    assert(bucket.config.refill_rate * periods >= 0) by (nonlinear_arith)
        requires
            bucket.config.refill_rate >= 0,
            periods >= 0,
    ;
}

/// A request either takes all the tokens it asks for or none of them, and exactly one of the two
/// counters records it.
pub proof fn law_all_or_nothing(bucket: Bucket, n: u32, age: u64)
    requires
        bucket.wf(),
        n > 0,
    ensures
        ({
            let before = if n > bucket.config.max_tokens {
                bucket
            } else {
                bucket.refilled(age)
            };
            let after = bucket.after_request(n, age);
            if bucket.grants(n, age) {
                &&& after.tokens == before.tokens - n
                &&& after.acquired == bucket.acquired.wrapping_add(n as u64)
                &&& after.rejected == bucket.rejected
            } else {
                &&& after.tokens == before.tokens
                &&& after.acquired == bucket.acquired
                &&& after.rejected == bucket.rejected.wrapping_add(1)
            }
        }),
{
    lemma_refill_adds(bucket, age);
}

/// The bucket after a series of requests, each for a number of tokens at an age of the bucket.
pub open spec fn after_requests(bucket: Bucket, requests: Seq<(u32, u64)>) -> Bucket
    decreases requests.len(),
{
    if requests.len() == 0 {
        bucket
    } else {
        after_requests(bucket, requests.drop_last()).after_request(
            requests.last().0,
            requests.last().1,
        )
    }
}

/// The tokens that a series of requests is granted.
pub open spec fn granted_tokens(bucket: Bucket, requests: Seq<(u32, u64)>) -> int
    decreases requests.len(),
{
    if requests.len() == 0 {
        0
    } else {
        let before = after_requests(bucket, requests.drop_last());
        granted_tokens(bucket, requests.drop_last()) + if before.grants(
            requests.last().0,
            requests.last().1,
        ) {
            requests.last().0 as int
        } else {
            0
        }
    }
}

/// Until the first refill interval is over, whatever is requested, the tokens that were granted
/// and the tokens that are left are together those that were there. So no burst can take more
/// than the bucket held.
pub proof fn law_burst_is_bounded(bucket: Bucket, requests: Seq<(u32, u64)>)
    requires
        bucket.wf(),
        forall|i: int|
            0 <= i < requests.len() ==> (#[trigger] requests[i]).1 < bucket.last_refill
                + bucket.config.refill_interval_ms,
    ensures
        granted_tokens(bucket, requests) + after_requests(bucket, requests).tokens == bucket.tokens,
        after_requests(bucket, requests).tokens <= bucket.config.max_tokens,
        after_requests(bucket, requests).config == bucket.config,
        after_requests(bucket, requests).last_refill == bucket.last_refill,
    decreases requests.len(),
{
    if requests.len() > 0 {
        let earlier = requests.drop_last();
        assert forall|i: int| 0 <= i < earlier.len() implies (#[trigger] earlier[i]).1
            < bucket.last_refill + bucket.config.refill_interval_ms by {
            assert(earlier[i] == requests[i]);
        }
        law_burst_is_bounded(bucket, earlier);
        let before = after_requests(bucket, earlier);
        let age = requests.last().1;
        let interval = bucket.config.refill_interval_ms;
        assert(requests[requests.len() - 1] == requests.last());
        if age >= before.last_refill {
            assert((age - before.last_refill) / interval as int == 0) by (nonlinear_arith)
                requires
                    0 <= age - before.last_refill < interval,
            ;
        }
        assert(before.due_periods(age) == 0);
        assert(Bucket { last_access: age, ..before }.due_periods(age) == 0);
    }
}

/// A bucket that has been left alone for long enough is full again.
pub proof fn law_idle_bucket_fills_up(bucket: Bucket, age: u64, periods: int)
    requires
        bucket.wf(),
        0 <= periods <= MAX_REFILL_PERIODS,
        bucket.last_refill + periods * bucket.config.refill_interval_ms <= age,
        bucket.tokens + bucket.config.refill_rate * periods >= bucket.config.max_tokens,
    ensures
        bucket.refilled(age).tokens == bucket.config.max_tokens,
{
    let interval = bucket.config.refill_interval_ms as int;
    assert(periods * interval >= 0) by (nonlinear_arith)
        requires
            periods >= 0,
            interval > 0,
    ;
    assert((age - bucket.last_refill) / interval >= periods) by (nonlinear_arith)
        requires
            bucket.last_refill + periods * interval <= age,
            interval > 0,
    ;
    let due = bucket.due_periods(age);
    assert(bucket.config.refill_rate * due >= bucket.config.refill_rate * periods)
        by (nonlinear_arith)
        requires
            due >= periods,
            bucket.config.refill_rate >= 0,
    ;
    if due == 0 {
        assert(bucket.config.refill_rate * due == 0) by (nonlinear_arith)
            requires
                due == 0,
        ;
    }
    lemma_refill_adds(bucket, age);
}

/// Two refills at the same time credit no more than one, unless the first one credited as many
/// periods as it could.
pub proof fn law_refill_is_credited_once(bucket: Bucket, age: u64)
    requires
        bucket.wf(),
        bucket.due_periods(age) < MAX_REFILL_PERIODS,
    ensures
        bucket.refilled(age).refilled(age) == bucket.refilled(age),
{
    let interval = bucket.config.refill_interval_ms as int;
    let due = bucket.due_periods(age);
    let after = bucket.refilled(age);
    if due > 0 {
        let since = age - bucket.last_refill;
        assert(due * interval <= since && (since - due * interval) / interval == 0)
            by (nonlinear_arith)
            requires
                due == since / interval,
                since >= 0,
                interval > 0,
        ;
        assert(after.last_refill == bucket.last_refill + due * interval);
    } else if age >= bucket.last_refill {
        assert((age - bucket.last_refill) / interval >= 0) by (nonlinear_arith)
            requires
                age >= bucket.last_refill,
                interval > 0,
        ;
    }
}

/// However many addresses are tracked, there is room for one more.
pub proof fn law_room_for_another_address(
    before: Map<IpKey, Bucket>,
    after: Map<IpKey, Bucket>,
)
    requires
        room_made(before, after),
    ensures
        after.len() < MAX_TRACKED_IPS,
{
}

/// The address that was used most recently keeps its bucket when room is made.
pub proof fn law_recent_address_is_kept(
    before: Map<IpKey, Bucket>,
    after: Map<IpKey, Bucket>,
    key: IpKey,
)
    requires
        before.dom().finite(),
        room_made(before, after),
        before.contains_key(key),
        forall|other: IpKey| #[trigger]
            before.contains_key(other) && other != key ==> before[other].accessed_at()
                < before[key].accessed_at(),
    ensures
        after.contains_key(key) && after[key] == before[key],
{
    if before.len() >= EMERGENCY_CLEANUP_SIZE && !after.contains_key(key) {
        assert(exists|kept: IpKey| after.contains_key(kept)) by {
            if forall|kept: IpKey| !after.contains_key(kept) {
                assert(after.dom() =~= Set::<IpKey>::empty());
            }
        }
        let kept = choose|kept: IpKey| after.contains_key(kept);
        assert(before.contains_key(kept));
    }
}

/// The buckets that have been made, less those that have been dropped, are the ones that are
/// tracked, whatever is looked up, requested or cleaned up.
pub proof fn law_created_less_cleaned_is_tracked(
    before: LimiterPool,
    after: LimiterPool,
    key: IpKey,
    n: u32,
    now: u64,
    granted: bool,
)
    requires
        before.wf(),
        looked_up(before, after, key, now) || requested(before, after, key, n, now, granted)
            || after == before.cleaned_up(now),
    ensures
        after.created.wrapping_sub(after.cleaned) == after.buckets.len(),
        after.created == before.created || after.created == before.created.wrapping_add(1),
{
    if after == before.cleaned_up(now) {
        lemma_submap_len(after.buckets, before.buckets);
    } else {
        let room = choose|room: Map<IpKey, Bucket>| #[trigger]
            room_made(before.buckets, room) && (after == before.with_bucket(room, key, now) || after
                == before.with_bucket(room, key, now).with_request(key, n, now));
        lemma_submap_len(room, before.buckets);
        let pool = before.with_bucket(room, key, now);
        assert(pool.with_request(key, n, now).buckets.dom() =~= pool.buckets.dom());
    }
}

/// A limiter is made once and cached for reuse: below 90 % of the capacity, looking an address up
/// tracks it, one bucket being made if it was not tracked. Looking it up again, still below that,
/// changes nothing.
pub proof fn law_limiter_is_cached(
    before: LimiterPool,
    first: LimiterPool,
    second: LimiterPool,
    key: IpKey,
    now: u64,
    later: u64,
)
    requires
        before.wf(),
        before.buckets.len() < EMERGENCY_CLEANUP_SIZE,
        looked_up(before, first, key, now),
        looked_up(first, second, key, later),
    ensures
        first.buckets.contains_key(key),
        first.buckets.len() < EMERGENCY_CLEANUP_SIZE ==> second == first,
        first.buckets.len() == before.buckets.len() + if before.buckets.contains_key(key) {
            0int
        } else {
            1int
        },
        first.created == if before.buckets.contains_key(key) {
            before.created
        } else {
            before.created.wrapping_add(1)
        },
        first.cleaned == before.cleaned,
{
    assert(first == before.with_bucket(before.buckets, key, now));
    if first.buckets.len() < EMERGENCY_CLEANUP_SIZE {
        assert(second == first.with_bucket(first.buckets, key, later));
    }
}

/// Tokens that are taken through a handle are gone for whoever looks the address up next: below
/// 90 % of the capacity, the limiter that comes back is the one that was left behind. A request by
/// the address takes them in the same way.
pub proof fn law_limiter_is_shared(
    before: LimiterPool,
    taken: LimiterPool,
    after: LimiterPool,
    key: IpKey,
    n: u32,
    now: u64,
    later: u64,
    granted: bool,
)
    requires
        before.wf(),
        before.buckets.contains_key(key),
        before.buckets.len() < EMERGENCY_CLEANUP_SIZE,
        acquired(before, taken, key, n, now, Some(granted)),
        looked_up(taken, after, key, later),
    ensures
        after == taken,
        requested(before, taken, key, n, now, granted),
        granted && n > 0 ==> after.buckets[key].tokens + n == before.buckets[key].refilled(
            before.buckets[key].age(now),
        ).tokens,
{
    assert(taken.buckets.dom() =~= before.buckets.dom());
    assert(after == taken.with_bucket(taken.buckets, key, later));
    assert(room_made(before.buckets, before.buckets));
    assert(before.with_bucket(before.buckets, key, now) == before);
}

/// Whatever is taken of one limiter through a handle leaves the others alone, however many there
/// are.
pub proof fn law_limiters_are_separate(
    before: LimiterPool,
    after: LimiterPool,
    key: IpKey,
    other: IpKey,
    n: u32,
    now: u64,
    granted: Option<bool>,
)
    requires
        acquired(before, after, key, n, now, granted),
        other != key,
    ensures
        after.buckets.contains_key(other) == before.buckets.contains_key(other),
        after.buckets.contains_key(other) ==> after.buckets[other] == before.buckets[other],
        after.created == before.created,
        after.cleaned == before.cleaned,
{
}

/// A refill credits the rate for every complete interval since the last one, of which at most 100
/// count, and never fills the bucket beyond its capacity. So it never credits more than the rate
/// allows, and below the capacity it credits exactly that.
pub proof fn law_refill_credits_the_rate(bucket: Bucket, age: u64)
    requires
        bucket.wf(),
        age >= bucket.last_refill,
    ensures
        ({
            let complete = (age - bucket.last_refill) / bucket.config.refill_interval_ms as int;
            let counted = if complete < 100 {
                complete
            } else {
                100
            };
            let after = bucket.refilled(age);
            &&& after.tokens <= bucket.tokens + bucket.config.refill_rate * complete
            &&& after.tokens <= bucket.config.max_tokens
            &&& bucket.tokens + bucket.config.refill_rate * counted <= bucket.config.max_tokens
                ==> after.tokens == bucket.tokens + bucket.config.refill_rate * counted
            &&& bucket.tokens + bucket.config.refill_rate * counted > bucket.config.max_tokens
                ==> after.tokens == bucket.config.max_tokens
        }),
{
    let interval = bucket.config.refill_interval_ms as int;
    let complete = (age - bucket.last_refill) / interval;
    let rate = bucket.config.refill_rate as int;
    assert(complete >= 0) by (nonlinear_arith)
        requires
            complete == (age - bucket.last_refill) / interval,
            age >= bucket.last_refill,
            interval > 0,
    ;
    let counted = if complete < 100 {
        complete
    } else {
        100
    };
    assert(bucket.due_periods(age) == counted);
    assert(0 <= rate * counted <= rate * complete) by (nonlinear_arith)
        requires
            0 <= counted <= complete,
            rate >= 0,
    ;
    if counted == 0 {
        assert(rate * counted == 0) by (nonlinear_arith)
            requires
                counted == 0,
        ;
    }
}

/// A refill loses no part of an interval: the time of the last refill moves on by the complete
/// intervals that were credited, and with a hundred of them or more to the last multiple of the
/// interval. Before the first interval is over nothing changes at all.
pub proof fn law_refill_keeps_the_remainder(bucket: Bucket, age: u64)
    requires
        bucket.wf(),
    ensures
        age < bucket.last_refill + bucket.config.refill_interval_ms ==> bucket.refilled(age)
            == bucket,
        age >= bucket.last_refill + bucket.config.refill_interval_ms ==> {
            let interval = bucket.config.refill_interval_ms as int;
            let complete = (age - bucket.last_refill) / interval;
            let after = bucket.refilled(age);
            &&& complete < 100 ==> after.last_refill == bucket.last_refill + complete * interval
                && 0 <= age - after.last_refill < interval
            &&& complete >= 100 ==> after.last_refill == age - age as int % interval
            &&& after.refills == bucket.refills.wrapping_add(1)
            &&& after == (Bucket {
                tokens: after.tokens,
                last_refill: after.last_refill,
                refills: after.refills,
                ..bucket
            })
        },
{
    let interval = bucket.config.refill_interval_ms as int;
    if age >= bucket.last_refill {
        let since = age - bucket.last_refill;
        assert(since < interval ==> since / interval == 0) by (nonlinear_arith)
            requires
                since >= 0,
                interval > 0,
        ;
        assert(since >= interval ==> since / interval >= 1) by (nonlinear_arith)
            requires
                interval > 0,
        ;
        assert(0 <= since / interval * interval <= since && since - since / interval * interval
            < interval) by (nonlinear_arith)
            requires
                since >= 0,
                interval > 0,
        ;
    }
}

/// A request is granted exactly if the bucket holds enough after the refill that is due. Then so
/// many tokens are gone, and otherwise none; either way the bucket counts as used, unless nothing
/// or more than a full bucket holds is asked for.
pub proof fn law_request_is_granted_if_tokens_suffice(bucket: Bucket, n: u32, age: u64)
    requires
        bucket.wf(),
    ensures
        bucket.grants(n, age) <==> n == 0 || n <= bucket.refilled(age).tokens,
        n <= bucket.tokens ==> bucket.grants(n, age),
        n > bucket.config.max_tokens ==> !bucket.grants(n, age),
        ({
            let filled = bucket.refilled(age);
            let after = bucket.after_request(n, age);
            &&& n == 0 ==> after == bucket
            &&& n > bucket.config.max_tokens ==> after == (Bucket {
                rejected: bucket.rejected.wrapping_add(1),
                ..bucket
            })
            &&& 0 < n <= filled.tokens ==> after == (Bucket {
                tokens: (filled.tokens - n) as u32,
                last_access: age,
                acquired: bucket.acquired.wrapping_add(n as u64),
                ..filled
            })
            &&& filled.tokens < n <= bucket.config.max_tokens ==> after == (Bucket {
                last_access: age,
                rejected: bucket.rejected.wrapping_add(1),
                ..filled
            })
        }),
{
    lemma_refill_adds(bucket, age);
    assert(Bucket { last_access: age, ..bucket }.due_periods(age) == bucket.due_periods(age));
}

/// Over any span of time, the tokens that a bucket grants and those that are left are together no
/// more than those that it held at the start and the rate for every complete interval in between.
pub proof fn law_rate_is_never_exceeded(bucket: Bucket, requests: Seq<(u32, u64)>, end: u64)
    requires
        bucket.wf(),
        bucket.last_refill % bucket.config.refill_interval_ms == 0,
        bucket.last_refill <= end,
        forall|i: int| 0 <= i < requests.len() ==> (#[trigger] requests[i]).1 <= end,
    ensures
        granted_tokens(bucket, requests) + after_requests(bucket, requests).tokens <= bucket.tokens
            + bucket.config.refill_rate * ((end - bucket.last_refill)
            / bucket.config.refill_interval_ms as int),
        after_requests(bucket, requests).last_refill % bucket.config.refill_interval_ms == 0,
{
    let interval = bucket.config.refill_interval_ms as int;
    let rate = bucket.config.refill_rate as int;
    let k = lemma_intervals_credited(bucket, requests, end);
    let complete = (end - bucket.last_refill) / interval;
    assert(k <= complete) by (nonlinear_arith)
        requires
            bucket.last_refill + k * interval <= end,
            complete == (end - bucket.last_refill) / interval,
            interval > 0,
    ;
    assert(rate * k <= rate * complete) by (nonlinear_arith)
        requires
            k <= complete,
            rate >= 0,
    ;
}

/// The intervals by which the last refill has moved on, and what that bounds.
proof fn lemma_intervals_credited(bucket: Bucket, requests: Seq<(u32, u64)>, end: u64) -> (k: int)
    requires
        bucket.wf(),
        bucket.last_refill % bucket.config.refill_interval_ms == 0,
        bucket.last_refill <= end,
        forall|i: int| 0 <= i < requests.len() ==> (#[trigger] requests[i]).1 <= end,
    ensures
        ({
            let after = after_requests(bucket, requests);
            &&& k >= 0
            &&& after.config == bucket.config
            &&& after.tokens <= bucket.config.max_tokens
            &&& after.last_refill == bucket.last_refill + k * bucket.config.refill_interval_ms
            &&& after.last_refill <= end
            &&& after.last_refill % bucket.config.refill_interval_ms == 0
            &&& granted_tokens(bucket, requests) + after.tokens <= bucket.tokens
                + bucket.config.refill_rate * k
        }),
    decreases requests.len(),
{
    let interval = bucket.config.refill_interval_ms as int;
    let rate = bucket.config.refill_rate as int;
    if requests.len() == 0 {
        assert(0 * interval == 0 && rate * 0 == 0);
        0
    } else {
        let earlier = requests.drop_last();
        assert forall|i: int| 0 <= i < earlier.len() implies (#[trigger] earlier[i]).1 <= end by {
            assert(earlier[i] == requests[i]);
        }
        let k = lemma_intervals_credited(bucket, earlier, end);
        let before = after_requests(bucket, earlier);
        let (n, age) = requests.last();
        assert(requests[requests.len() - 1] == requests.last());
        let touched = Bucket { last_access: age, ..before };
        assert(touched.due_periods(age) == before.due_periods(age));
        let due = before.due_periods(age);
        if n == 0 || n > before.config.max_tokens || due == 0 {
            lemma_due_is_not_negative(before, age);
            k
        } else {
            lemma_due_is_not_negative(before, age);
            let complete = (age - before.last_refill) / interval;
            assert(complete >= due) by {
                assert(due == min_int(complete, 100));
            }
            assert(0 <= complete * interval <= age - before.last_refill) by (nonlinear_arith)
                requires
                    complete == (age - before.last_refill) / interval,
                    age >= before.last_refill,
                    interval > 0,
            ;
            let filled = before.refilled(age);
            if due >= 100 {
                assert(age - age as int % interval == before.last_refill + complete * interval)
                    by (nonlinear_arith)
                    requires
                        complete == (age - before.last_refill) / interval,
                        before.last_refill as int % interval == 0,
                        age >= before.last_refill,
                        interval > 0,
                {
                    vstd::arithmetic::div_mod::lemma_fundamental_div_mod(
                        before.last_refill as int,
                        interval,
                    );
                    vstd::arithmetic::div_mod::lemma_fundamental_div_mod(age as int, interval);
                    vstd::arithmetic::div_mod::lemma_fundamental_div_mod(
                        age - before.last_refill,
                        interval,
                    );
                    let q = before.last_refill as int / interval;
                    let r = (age - before.last_refill) % interval;
                    assert(age as int == (q + complete) * interval + r);
                    vstd::arithmetic::div_mod::lemma_fundamental_div_mod_converse(
                        age as int,
                        interval,
                        q + complete,
                        r,
                    );
                }
            }
            let moved = if due >= 100 {
                complete
            } else {
                due
            };
            assert(filled.last_refill == before.last_refill + moved * interval);
            assert(moved >= due && moved <= complete);
            assert(before.last_refill + moved * interval == bucket.last_refill + (k + moved)
                * interval) by (nonlinear_arith)
                requires
                    before.last_refill == bucket.last_refill + k * interval,
            ;
            assert((before.last_refill + moved * interval) % interval == 0) by (nonlinear_arith)
                requires
                    before.last_refill as int % interval == 0,
                    interval > 0,
            {
                vstd::arithmetic::div_mod::lemma_mod_multiples_vanish(
                    moved,
                    before.last_refill as int,
                    interval,
                );
                assert(interval * moved + before.last_refill == before.last_refill + moved
                    * interval);
            }
            assert(rate * k + rate * due <= rate * (k + moved)) by (nonlinear_arith)
                requires
                    moved >= due,
                    rate >= 0,
            ;
            assert(moved * interval <= complete * interval) by (nonlinear_arith)
                requires
                    moved <= complete,
                    interval > 0,
            ;
            assert(filled.tokens <= before.tokens + rate * due);
            k + moved
        }
    }
}

proof fn lemma_due_is_not_negative(bucket: Bucket, age: u64)
    requires
        bucket.config.valid(),
    ensures
        0 <= bucket.due_periods(age) <= 100,
{
    if age >= bucket.last_refill {
        assert((age - bucket.last_refill) / bucket.config.refill_interval_ms as int >= 0)
            by (nonlinear_arith)
            requires
                age >= bucket.last_refill,
                bucket.config.refill_interval_ms > 0,
        ;
    }
}

/// A new bucket is full and has counted nothing. Its age starts at 0 and goes with its clock; it
/// is inactive once more than the given time has passed since it was last used.
pub proof fn law_new_bucket_is_full(
    config: RateLimiterConfig,
    clock: MonotonicClock,
    made_at: u64,
    now: u64,
    duration: u64,
)
    ensures
        ({
            let bucket = Bucket::full(config, clock, made_at);
            &&& bucket.tokens == config.max_tokens
            &&& bucket.config == config && bucket.clock == clock && bucket.made_at == made_at
            &&& bucket.acquired == 0 && bucket.rejected == 0 && bucket.refills == 0
            &&& bucket.last_refill == 0 && bucket.last_access == 0
            &&& now >= made_at ==> bucket.age(now) == now - made_at
            &&& now < made_at ==> bucket.age(now) == 0
            &&& bucket.inactive(duration, bucket.age(now)) <==> now > made_at + duration
        }),
{
}

/// A bucket is inactive exactly if more than the given time has passed since its last use.
pub proof fn law_unused_buckets_become_inactive(bucket: Bucket, duration: u64, age: u64)
    ensures
        bucket.inactive(duration, age) <==> age > bucket.last_access + duration,
        bucket.accessed_at() == bucket.made_at + bucket.last_access,
{
}

/// The counters that are shown of a bucket are its own.
pub proof fn law_counters_are_shown(bucket: Bucket)
    ensures
        metrics_of(bucket).total_acquired == bucket.acquired,
        metrics_of(bucket).total_rejected == bucket.rejected,
        metrics_of(bucket).total_refills == bucket.refills,
        metrics_of(bucket).current_tokens == bucket.tokens,
        metrics_of(bucket).max_tokens == bucket.config.max_tokens,
{
}

/// Below 9000 tracked addresses nobody is dropped. From there on 7000 are left, and none of those
/// that are dropped was used later than one that is left.
pub proof fn law_room_is_made_from_the_least_used(
    before: Map<IpKey, Bucket>,
    after: Map<IpKey, Bucket>,
    kept: IpKey,
    dropped: IpKey,
)
    requires
        room_made(before, after),
    ensures
        before.len() < 9000 ==> after == before,
        before.len() >= 9000 ==> after.len() == 7000,
        after.contains_key(kept) ==> before.contains_key(kept) && after[kept] == before[kept],
        after.contains_key(kept) && before.contains_key(dropped) && !after.contains_key(dropped)
            ==> before[dropped].made_at + before[dropped].last_access <= before[kept].made_at
            + before[kept].last_access,
{
}

/// Looking an address up, below 9000 tracked ones, changes nothing if it is tracked. Otherwise it
/// gets a full bucket of the pool's configuration, made now, and counts as created; all others
/// stay.
pub proof fn law_lookup_makes_a_full_bucket(
    before: LimiterPool,
    after: LimiterPool,
    key: IpKey,
    now: u64,
)
    requires
        before.buckets.len() < 9000,
        looked_up(before, after, key, now),
    ensures
        before.buckets.contains_key(key) ==> after == before,
        !before.buckets.contains_key(key) ==> after == (LimiterPool {
            buckets: before.buckets.insert(
                key,
                Bucket {
                    config: before.config,
                    clock: before.clock,
                    made_at: now,
                    tokens: before.config.max_tokens,
                    last_refill: 0,
                    last_access: 0,
                    acquired: 0,
                    rejected: 0,
                    refills: 0,
                },
            ),
            created: before.created.wrapping_add(1),
            ..before
        }),
{
    assert(after == before.with_bucket(before.buckets, key, now));
    assert(before.cleaned.wrapping_add(0) == before.cleaned);
}

/// From 9000 tracked addresses on a lookup drops the least used ones first and counts them as
/// cleaned up; the address that is looked up is tracked afterwards, with its own bucket if that
/// was left.
pub proof fn law_lookup_counts_what_it_drops(
    before: LimiterPool,
    after: LimiterPool,
    key: IpKey,
    now: u64,
)
    requires
        before.wf(),
        before.buckets.len() >= 9000,
        looked_up(before, after, key, now),
    ensures
        after.buckets.contains_key(key),
        after.buckets[key] == before.buckets[key] || after.buckets[key].tokens
            == before.config.max_tokens,
        after.buckets.len() == 7000 && after.created == before.created || after.buckets.len() == 7001
            && after.created == before.created.wrapping_add(1),
        after.cleaned == before.cleaned.wrapping_add((before.buckets.len() - 7000) as u64),
        forall|other: IpKey| #[trigger]
            after.buckets.contains_key(other) && other != key ==> before.buckets.contains_key(other)
                && after.buckets[other] == before.buckets[other],
{
    let room = choose|room: Map<IpKey, Bucket>| #[trigger]
        room_made(before.buckets, room) && after == before.with_bucket(room, key, now);
    lemma_submap_len(room, before.buckets);
    assert forall|other: IpKey| #[trigger] room.contains_key(other) implies before.buckets.contains_key(
        other,
    ) && room[other] == before.buckets[other] by {
        law_room_is_made_from_the_least_used(before.buckets, room, other, other);
    }
    assert(room.contains_key(key) ==> after.buckets[key] == before.buckets[key]);
    assert forall|other: IpKey| #[trigger]
        after.buckets.contains_key(other) && other != key implies before.buckets.contains_key(other)
        && after.buckets[other] == before.buckets[other] by {
        assert(room.contains_key(other));
    }
}

/// A request by an address, below 9000 tracked ones, is granted exactly if its own bucket has
/// enough tokens; an address that is new has a full one. No other address is affected.
pub proof fn law_address_spends_its_own_tokens(
    before: LimiterPool,
    after: LimiterPool,
    key: IpKey,
    n: u32,
    now: u64,
    granted: bool,
    other: IpKey,
)
    requires
        before.wf(),
        before.config.valid(),
        before.buckets.len() < 9000,
        requested(before, after, key, n, now, granted),
    ensures
        ({
            let bucket = if before.buckets.contains_key(key) {
                before.buckets[key]
            } else {
                Bucket::full(before.config, before.clock, now)
            };
            &&& granted <==> n == 0 || n <= bucket.refilled(bucket.age(now)).tokens
            &&& after.buckets.contains_key(key)
            &&& after.buckets[key] == bucket.after_request(n, bucket.age(now))
            &&& other != key ==> after.buckets.contains_key(other)
                == before.buckets.contains_key(other)
            &&& other != key && before.buckets.contains_key(other) ==> after.buckets[other]
                == before.buckets[other]
            &&& !before.buckets.contains_key(key) ==> (granted <==> n <= before.config.max_tokens)
        }),
{
    let bucket = before.with_bucket(before.buckets, key, now).buckets[key];
    assert(bucket.refilled(bucket.age(now)).tokens <= bucket.config.max_tokens) by {
        if before.buckets.contains_key(key) {
            lemma_refill_adds(bucket, bucket.age(now));
        } else {
            lemma_refill_adds(bucket, 0);
        }
    }
    if !before.buckets.contains_key(key) {
        lemma_refill_adds(bucket, bucket.age(now));
    }
}

/// What one limiter grants through a handle is decided by its own bucket alone; a limiter that is
/// not tracked grants nothing and changes nothing.
pub proof fn law_handle_spends_its_own_tokens(
    before: LimiterPool,
    after: LimiterPool,
    key: IpKey,
    n: u32,
    now: u64,
    granted: Option<bool>,
)
    requires
        before.wf(),
        acquired(before, after, key, n, now, granted),
    ensures
        granted is Some == before.buckets.contains_key(key),
        before.buckets.contains_key(key) ==> {
            let bucket = before.buckets[key];
            &&& granted == Some(n == 0 || n <= bucket.refilled(bucket.age(now)).tokens)
            &&& after == (LimiterPool {
                buckets: before.buckets.insert(key, bucket.after_request(n, bucket.age(now))),
                ..before
            })
        },
        !before.buckets.contains_key(key) ==> after == before,
{
}

/// A request that needs a token of its own address and one of all together is refused exactly if
/// one of the two is out of tokens. The shared one loses a token only if the own one grants one.
pub proof fn law_both_limits_hold(
    own: LimiterPool,
    own_after: LimiterPool,
    shared: Bucket,
    shared_after: Bucket,
    key: IpKey,
    now: u64,
    refused: bool,
)
    requires
        own.wf(),
        own.config.valid(),
        own.buckets.len() < 9000,
        shared.wf(),
        requested_both(own, own_after, shared, shared_after, key, now, refused),
    ensures
        ({
            let bucket = if own.buckets.contains_key(key) {
                own.buckets[key]
            } else {
                Bucket::full(own.config, own.clock, now)
            };
            let own_grants = bucket.refilled(bucket.age(now)).tokens >= 1;
            let shared_grants = shared.refilled(shared.age(now)).tokens >= 1;
            &&& refused <==> !own_grants || !shared_grants
            &&& own_after.buckets[key] == bucket.after_request(1, bucket.age(now))
            &&& !own_grants ==> shared_after == shared
            &&& own_grants ==> shared_after == shared.after_request(1, shared.age(now))
        }),
{
}

/// A cleanup keeps exactly the buckets that were used within the time that is allowed, which is
/// halved when more than 80 % of the 10000 places are taken. What it drops is counted.
pub proof fn law_cleanup_keeps_what_was_used(pool: LimiterPool, now: u64, key: IpKey)
    requires
        pool.wf(),
    ensures
        ({
            let allowed = if pool.buckets.len() >= 8100 {
                pool.inactive_duration_ms / 2
            } else {
                pool.inactive_duration_ms
            };
            let after = pool.cleaned_up(now);
            &&& after.buckets.contains_key(key) <==> pool.buckets.contains_key(key)
                && pool.buckets[key].age(now) <= pool.buckets[key].last_access + allowed
            &&& after.buckets.contains_key(key) ==> after.buckets[key] == pool.buckets[key]
            &&& after.cleaned == pool.cleaned.wrapping_add(
                (pool.buckets.len() - after.buckets.len()) as u64,
            )
            &&& after.pressure == after.buckets.len() / 100
            &&& after == (LimiterPool {
                buckets: after.buckets,
                cleaned: after.cleaned,
                pressure: after.pressure,
                ..pool
            })
        }),
{
    lemma_submap_len(pool.cleaned_up(now).buckets, pool.buckets);
}

/// The fuller the pool, the sooner it is cleaned up again: after ten seconds above 80 %, after
/// thirty above 50 %, and otherwise after the configured time. A new pool is empty, cleans up once
/// a minute, and drops what has not been used for five.
pub proof fn law_full_pools_are_cleaned_sooner(
    pool: LimiterPool,
    config: RateLimiterConfig,
    clock: MonotonicClock,
)
    ensures
        pool.pressure > 80 ==> pool.next_cleanup_delay() == 10_000,
        50 < pool.pressure <= 80 ==> pool.next_cleanup_delay() == 30_000,
        pool.pressure <= 50 ==> pool.next_cleanup_delay() == pool.cleanup_interval_ms,
        LimiterPool::fresh(config, clock).next_cleanup_delay() == 60_000,
        LimiterPool::fresh(config, clock).inactive_duration_ms == 300_000,
        LimiterPool::fresh(config, clock).buckets == Map::<IpKey, Bucket>::empty(),
        LimiterPool::fresh(config, clock).config == config,
        LimiterPool::fresh(config, clock).clock == clock,
        LimiterPool::fresh(config, clock).created == 0,
        LimiterPool::fresh(config, clock).cleaned == 0,
{
}

/// A new pool tracks no address and has counted nothing. It is cleaned up every minute, and drops
/// what has not been used for five.
pub proof fn law_new_pool_is_empty(config: RateLimiterConfig, clock: MonotonicClock)
    ensures
        ({
            let pool = LimiterPool::fresh(config, clock);
            &&& pool.buckets.dom().len() == 0
            &&& pool.config == config && pool.clock == clock
            &&& pool.created == 0 && pool.cleaned == 0 && pool.pressure == 0
            &&& pool.cleanup_interval_ms == 60_000
            &&& pool.inactive_duration_ms == 300_000
        }),
{
}

} // verus!
