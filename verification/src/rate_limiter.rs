//! Per-IP limits of connection attempts and requests.

use vstd::prelude::*;

use crate::addr::{IpAddr, IpKey};

verus! {

/// Number of known addresses from which on unused ones may be dropped.
pub const CROWDED: usize = 9000;

/// Limits of a token bucket: its size, the tokens that are added after each interval, and that
/// interval in milliseconds; how often unused buckets are dropped, and after how long.
pub struct Limits {
    pub max_tokens: u64,
    pub refill_rate: u32,
    pub refill_interval_ms: u64,
    pub cleanup_interval_ms: u64,
    pub inactive_duration_ms: u64,
}

impl Limits {
    /// Limits for which a bucket can be made and refilled: a hundred refills must fit in a machine
    /// word, and nine in 32 bits, since a bucket that is under pressure is refilled at nine tenths
    /// of its rate.
    pub open spec fn valid(self) -> bool {
        &&& 0 < self.max_tokens <= usize::MAX
        &&& 0 < self.refill_rate <= self.max_tokens
        &&& self.refill_rate * 100 <= usize::MAX
        &&& self.refill_rate * 9 <= u32::MAX
        &&& self.refill_interval_ms > 0
    }
}

/// The limits of a throttle, and how many tokens it has granted to each address that it knows.
#[verifier::ext_equal]
pub struct Throttling {
    pub limits: Limits,
    pub granted: Map<IpKey, u64>,
}

impl Throttling {
    /// A throttle that knows no address.
    pub open spec fn fresh(limits: Limits) -> Throttling {
        Throttling { limits, granted: Map::empty() }
    }

    /// The addresses that the throttle knows.
    pub open spec fn known(self) -> Set<IpKey> {
        self.granted.dom()
    }
}

/// How many tokens an address has got after another request, if it had got `before` of them: one
/// more if it is granted.
pub open spec fn granted_after(before: u64, granted: bool) -> u64 {
    if granted {
        before.wrapping_add(1)
    } else {
        before
    }
}

/// The limits that a throttle was made with.
pub uninterp spec fn throttle_limits(throttle: Throttle) -> Limits;

/// How many tokens a throttle has granted to each address that it knows. The count starts over
/// when it has reached its largest number.
pub uninterp spec fn throttle_granted(throttle: Throttle) -> Map<IpKey, u64>;

/// One token bucket per address: a `rater::IpRateLimiterManager`, kept opaque.
#[verifier::external_body]
pub struct Throttle {
    manager: rater::IpRateLimiterManager,
}

impl View for Throttle {
    type V = Throttling;

    open spec fn view(&self) -> Throttling {
        Throttling { limits: throttle_limits(*self), granted: throttle_granted(*self) }
    }
}

impl Throttle {
    /// `rater::IpRateLimiterManager::with_cleanup_settings`: a new manager has the given limits
    /// and knows no address.
    #[verifier::external_body]
    fn new(
        max_tokens: u64,
        refill_rate: u32,
        refill_interval_ms: u64,
        cleanup_interval_ms: u64,
        inactive_duration_ms: u64,
    ) -> (throttle: Self)
        ensures
            throttle_limits(throttle) == (Limits {
                max_tokens,
                refill_rate,
                refill_interval_ms,
                cleanup_interval_ms,
                inactive_duration_ms,
            }),
            (throttle_granted(throttle) == Map::<IpKey, u64>::empty()),
    {
        let config = rater::RateLimiterConfig::new(max_tokens, refill_rate, refill_interval_ms);
        Throttle {
            manager: rater::IpRateLimiterManager::with_cleanup_settings(
                config,
                cleanup_interval_ms,
                inactive_duration_ms,
            ),
        }
    }

    /// `rater::IpRateLimiterManager::try_acquire`: takes a token of the address, if there is one.
    /// A token that is granted is counted for the address, from 0 if it was not known, and one
    /// that is refused is not. A known address changes nothing else, and neither does another one
    /// as long as fewer than 9000 are known, which is added. After that it may not be added if it
    /// is refused, and unused ones may be dropped. Whether there is a token depends on the time,
    /// and whether it can be taken on the processor; neither is stated.
    #[verifier::external_body]
    fn try_acquire(&mut self, ip: &IpAddr) -> (granted: bool)
        requires
            throttle_limits(*old(self)).valid(),
        ensures
            throttle_limits(*final(self)) == throttle_limits(*old(self)),
            throttle_granted(*final(self)).remove(ip.spec_key()).submap_of(
                throttle_granted(*old(self)),
            ),
            throttle_granted(*old(self)).contains_key(ip.spec_key()) ==> throttle_granted(
                *final(self),
            ) == throttle_granted(*old(self)).insert(
                ip.spec_key(),
                granted_after(throttle_granted(*old(self))[ip.spec_key()], granted),
            ),
            !throttle_granted(*old(self)).contains_key(ip.spec_key()) && throttle_granted(
                *old(self),
            ).dom().len() < CROWDED ==> throttle_granted(*final(self)) == throttle_granted(
                *old(self),
            ).insert(ip.spec_key(), granted_after(0, granted)),
            !throttle_granted(*old(self)).contains_key(ip.spec_key()) && throttle_granted(
                *final(self),
            ).contains_key(ip.spec_key()) ==> throttle_granted(*final(self))[ip.spec_key()]
                == granted_after(0, granted),
            granted ==> throttle_granted(*final(self)).contains_key(ip.spec_key()),
    {
        match *ip {
            IpAddr::V4(a, b, c, d) => self.manager.try_acquire([a, b, c, d].into()),
            IpAddr::V6(bits) => self.manager.try_acquire(bits.to_be_bytes().into()),
        }
    }

    /// `rater::IpRateLimiterManager::active_ips`: the number of known addresses.
    #[verifier::external_body]
    fn active_ips(&self) -> (n: usize)
        ensures
            n == throttle_granted(*self).dom().len(),
    {
        self.manager.active_ips()
    }

    /// `rater::IpRateLimiterManager::clear`: no address is known any more.
    #[verifier::external_body]
    fn clear(&mut self)
        ensures
            throttle_limits(*final(self)) == throttle_limits(*old(self)),
            (throttle_granted(*final(self)) == Map::<IpKey, u64>::empty()),
    {
        self.manager.clear()
    }
}

/// Limits how fast an address can make new connections, not how many it has. Tokens come back
/// over time, so that a client that reconnects now and then is never held back.
pub struct ConnectionRateLimiter {
    throttle: Throttle,
}

impl View for ConnectionRateLimiter {
    type V = Throttling;

    closed spec fn view(&self) -> Throttling {
        self.throttle@
    }
}

/// A request for a token by the address `key` turns `before` into `after`: a token that is granted
/// is counted for the address, from 0 if it was not known, and one that is refused is not. What is
/// known of the others stays, unless they are dropped because there are too many.
pub open spec fn asked(before: Throttling, after: Throttling, key: IpKey, granted: bool) -> bool {
    &&& after.limits == before.limits
    &&& after.granted.remove(key).submap_of(before.granted)
    &&& if before.known().contains(key) {
        after.granted == before.granted.insert(key, granted_after(before.granted[key], granted))
    } else {
        &&& before.known().len() < CROWDED ==> after.granted == before.granted.insert(
            key,
            granted_after(0, granted),
        )
        &&& after.known().contains(key) ==> after.granted[key] == granted_after(0, granted)
        &&& granted ==> after.known().contains(key)
    }
}

/// The counts tell a request that is granted from one that is refused, as long as there is room
/// for the address.
pub proof fn law_grants_are_counted(
    before: Throttling,
    after: Throttling,
    other: Throttling,
    key: IpKey,
)
    requires
        before.known().contains(key) || before.known().len() < CROWDED,
        asked(before, after, key, true),
        asked(before, other, key, false),
    ensures
        after.granted[key] == granted_after(other.granted[key], true),
        after.granted[key] != other.granted[key],
        after.known() == other.known(),
{
    assert(after.known() =~= other.known());
}

/// Limits of `max_per_ip` tokens that are restored every minute.
pub open spec fn connection_limits(max_per_ip: u32) -> Limits {
    Limits {
        max_tokens: max_per_ip as u64,
        refill_rate: max_per_ip,
        refill_interval_ms: 60_000,
        cleanup_interval_ms: 60_000,
        inactive_duration_ms: 300_000,
    }
}

impl ConnectionRateLimiter {
    /// At most `max_per_ip` connections in a minute for each address.
    pub fn new(max_per_ip: u32) -> (limiter: Self)
        ensures
            limiter@ == Throttling::fresh(connection_limits(max_per_ip)),
            max_per_ip > 0 && max_per_ip * 100 <= usize::MAX && max_per_ip * 9 <= u32::MAX
                ==> limiter@.limits.valid(),
    {
        ConnectionRateLimiter {
            throttle: Throttle::new(max_per_ip as u64, max_per_ip, 60_000, 60_000, 300_000),
        }
    }

    /// Takes one token of `ip`. Comes back with whether it was under its limit.
    pub fn try_acquire(&mut self, ip: &IpAddr) -> (granted: bool)
        requires
            old(self)@.limits.valid(),
        ensures
            asked(old(self)@, final(self)@, ip.spec_key(), granted),
    {
        self.throttle.try_acquire(ip)
    }

    /// Number of addresses that are known.
    pub fn get_active_ip_count(&self) -> (n: usize)
        ensures
            n == self@.known().len(),
    {
        self.throttle.active_ips()
    }
}

/// Limits the requests of each address.
pub struct RateLimiter {
    throttle: Throttle,
}

impl View for RateLimiter {
    type V = Throttling;

    closed spec fn view(&self) -> Throttling {
        self.throttle@
    }
}

/// Limits of `max_per_ip` tokens that are restored after so many seconds.
pub open spec fn request_limits(window_seconds: u64, max_per_ip: u32) -> Limits {
    Limits {
        max_tokens: max_per_ip as u64,
        refill_rate: max_per_ip,
        refill_interval_ms: (window_seconds * 1000) as u64,
        cleanup_interval_ms: (window_seconds * 1000) as u64,
        inactive_duration_ms: (window_seconds * 5000) as u64,
    }
}

impl RateLimiter {
    /// At most `max_per_ip` requests in a window of so many seconds for each address.
    pub fn new(window_seconds: u64, max_per_ip: u32) -> (limiter: Self)
        requires
            window_seconds * 5000 <= u64::MAX,
        ensures
            limiter@ == Throttling::fresh(request_limits(window_seconds, max_per_ip)),
            window_seconds > 0 && max_per_ip > 0 && max_per_ip * 100 <= usize::MAX && max_per_ip * 9
                <= u32::MAX ==> limiter@.limits.valid(),
    {
        RateLimiter {
            throttle: Throttle::new(
                max_per_ip as u64,
                max_per_ip,
                window_seconds * 1000,
                window_seconds * 1000,
                window_seconds * 5000,
            ),
        }
    }

    /// Takes one token of `ip`. Comes back with whether the request is allowed.
    pub fn check_and_increment(&mut self, ip: &IpAddr) -> (allowed: bool)
        requires
            old(self)@.limits.valid(),
        ensures
            asked(old(self)@, final(self)@, ip.spec_key(), allowed),
    {
        self.throttle.try_acquire(ip)
    }

    /// Forgets all addresses, and with them what they have used of their limits.
    pub fn reset(&mut self)
        ensures
            final(self)@ == Throttling::fresh(old(self)@.limits),
    {
        self.throttle.clear()
    }
}

/// A connection limit lets each address have so many tokens in a minute, and forgets an address
/// that has not asked for five; a request limit lets it have so many in the given window, and
/// forgets it after five windows.
pub proof fn law_limits_are_per_window(window_seconds: u64, max_per_ip: u32)
    requires
        window_seconds * 5000 <= u64::MAX,
    ensures
        connection_limits(max_per_ip) == (Limits {
            max_tokens: max_per_ip as u64,
            refill_rate: max_per_ip,
            refill_interval_ms: 60_000,
            cleanup_interval_ms: 60_000,
            inactive_duration_ms: 300_000,
        }),
        request_limits(window_seconds, max_per_ip).max_tokens == max_per_ip,
        request_limits(window_seconds, max_per_ip).refill_rate == max_per_ip,
        request_limits(window_seconds, max_per_ip).refill_interval_ms == 1000 * window_seconds,
        request_limits(window_seconds, max_per_ip).cleanup_interval_ms == 1000 * window_seconds,
        request_limits(window_seconds, max_per_ip).inactive_duration_ms == 5000 * window_seconds,
{
}

/// A request counts for the address that makes it and for no other: a token that is granted is one
/// more, one that is refused is none, and an address that is new starts from none. What is known
/// of another address stays as it is, or is forgotten when there are too many.
pub proof fn law_requests_count_for_their_address(
    before: Throttling,
    after: Throttling,
    key: IpKey,
    granted: bool,
    other: IpKey,
)
    requires
        asked(before, after, key, granted),
    ensures
        after.limits == before.limits,
        before.granted.contains_key(key) && granted ==> after.granted[key]
            == before.granted[key].wrapping_add(1),
        before.granted.contains_key(key) && !granted ==> after.granted[key] == before.granted[key],
        !before.granted.contains_key(key) && granted ==> after.granted.contains_key(key)
            && after.granted[key] == 1,
        !before.granted.contains_key(key) && !granted && after.granted.contains_key(key)
            ==> after.granted[key] == 0,
        other != key && after.granted.contains_key(other) ==> before.granted.contains_key(other)
            && after.granted[other] == before.granted[other],
        other != key && before.granted.contains_key(other) && (before.granted.contains_key(key)
            || before.granted.dom().len() < 9000) ==> after.granted.contains_key(other),
        before.granted.contains_key(key) || before.granted.dom().len() < 9000
            ==> after.granted.contains_key(key),
{
    assert(after.granted.remove(key).submap_of(before.granted));
    if other != key && after.granted.contains_key(other) {
        let rest = after.granted.remove(key);
        assert(rest.dom().contains(other) && rest[other] == after.granted[other]);
        assert(before.granted.dom().contains(other));
    }
}

/// A new throttle has granted nothing to anybody.
pub proof fn law_new_throttle_has_granted_nothing(limits: Limits, key: IpKey)
    ensures
        !Throttling::fresh(limits).granted.contains_key(key),
        !Throttling::fresh(limits).known().contains(key),
        Throttling::fresh(limits).limits == limits,
{
}

} // verus!
