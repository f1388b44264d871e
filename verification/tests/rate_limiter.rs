//! Token buckets and their manager.

use cncnet_server::addr::IpAddr;
use cncnet_server::clock::MonotonicClock;
use cncnet_server::net::rate_limiter::{
    limit_reached_at, AtomicAccess, IpRateLimiterManager, MemoryOrdering, RateLimiter,
    RateLimiterConfig, RateLimiterMetrics, EMERGENCY_TARGET_SIZE, MAX_TRACKED_IPS,
};

fn pause(ms: u128) {
    let start = std::time::Instant::now();
    while start.elapsed().as_millis() < ms {}
}

fn local(last: u8) -> IpAddr {
    IpAddr::V4(192, 168, 1, last)
}

fn numbered(n: usize) -> IpAddr {
    IpAddr::V4(10, (n / 65536) as u8, (n / 256 % 256) as u8, (n % 256) as u8)
}

fn limit(max_tokens: u32, refill_rate: u32, refill_interval_ms: u64) -> RateLimiterConfig {
    RateLimiterConfig {
        max_tokens,
        refill_rate,
        refill_interval_ms,
        ordering: MemoryOrdering::Relaxed,
    }
}

fn success_rate(metrics: &RateLimiterMetrics) -> f64 {
    let total = metrics.total_acquired + metrics.total_rejected;
    if total == 0 {
        1.0
    } else {
        metrics.total_acquired as f64 / total as f64
    }
}

#[test]
fn test_monotonic_time() {
    let mut limiter = RateLimiter::new(10, 5);
    for _ in 0..10 {
        assert!(limiter.try_acquire());
    }
    pause(1100);
    for _ in 0..5 {
        assert!(limiter.try_acquire());
    }
    assert!(!limiter.try_acquire());
}

#[test]
fn rate_limiter_test_metrics() {
    let mut limiter = RateLimiter::new(5, 2);
    for _ in 0..3 {
        assert!(limiter.try_acquire());
    }
    for _ in 0..5 {
        limiter.try_acquire();
    }
    let metrics = limiter.metrics();
    assert_eq!(metrics.total_acquired, 5);
    assert_eq!(metrics.total_rejected, 3);
    assert!(success_rate(&metrics) > 0.6 && success_rate(&metrics) < 0.7);
}

#[test]
fn test_max_refill_periods() {
    let config = RateLimiterConfig {
        max_tokens: 100,
        refill_rate: 10,
        refill_interval_ms: 1,
        ordering: MemoryOrdering::Relaxed,
    };
    let mut limiter = RateLimiter::with_config(config);
    for _ in 0..100 {
        assert!(limiter.try_acquire());
    }
    pause(1000);
    assert_eq!(limiter.available_tokens(), 100);
}

#[test]
fn test_ip_manager_capacity() {
    let config = RateLimiterConfig::game_server_default();
    let mut manager = IpRateLimiterManager::new(config);
    for i in 0..100 {
        let ip = local((i % 256) as u8);
        assert!(manager.try_acquire(ip));
    }
    let metrics = manager.manager_metrics();
    assert!(metrics.active_ips <= MAX_TRACKED_IPS);
    assert_eq!(metrics.total_created, 100);
}

#[test]
fn test_cleanup_task() {
    let config = RateLimiterConfig::game_server_default();
    let mut manager = IpRateLimiterManager::new(config);
    manager.set_cleanup(100, 100);
    assert!(manager.try_acquire(local(1)));
    pause(300);
    manager.cleanup();
    assert_eq!(manager.active_ips(), 0);
    assert!(manager.manager_metrics().total_cleaned > 0);
}

#[test]
fn test_pressure_detection() {
    let mut limiter = RateLimiter::new(10, 5);
    for _ in 0..5 {
        assert!(limiter.try_acquire());
    }
    assert!(!limiter.metrics().is_under_pressure());
    for _ in 0..20 {
        limiter.try_acquire();
    }
    assert!(limiter.metrics().is_under_pressure());
}

#[test]
fn test_zero_refill_interval() {
    let config = RateLimiterConfig {
        max_tokens: 10,
        refill_rate: 5,
        refill_interval_ms: 1,
        ordering: MemoryOrdering::Relaxed,
    };
    let mut limiter = RateLimiter::with_config(config);
    assert!(limiter.try_acquire());
}

#[test]
fn test_spin_limit() {
    let mut limiter = RateLimiter::new(1, 1);
    assert!(limiter.try_acquire());
    for _ in 0..20 {
        assert!(!limiter.try_acquire());
    }
}

#[test]
fn refills_are_whole_periods() {
    let clock = MonotonicClock::start();
    let mut limiter = RateLimiter::with_clock(limit(10, 3, 1000), clock, 500);
    assert!(limiter.try_acquire_n_at(10, 500));
    assert_eq!(limiter.available_tokens_at(1499), 0);
    assert_eq!(limiter.available_tokens_at(1500), 3);
    assert_eq!(limiter.available_tokens_at(2499), 3);
    assert_eq!(limiter.available_tokens_at(3500), 9);
    assert_eq!(limiter.available_tokens_at(4500), 10);
    assert_eq!(limiter.metrics().current_tokens, 10);
    assert_eq!(limiter.metrics().max_tokens, 10);
}

#[test]
fn tokens_are_given_all_or_none() {
    let clock = MonotonicClock::start();
    let mut limiter = RateLimiter::with_clock(limit(10, 1, 1000), clock, 0);
    assert!(!limiter.try_acquire_n_at(11, 0));
    assert_eq!(limiter.available_tokens_at(0), 10);
    assert!(limiter.try_acquire_n_at(7, 0));
    assert!(!limiter.try_acquire_n_at(4, 0));
    assert_eq!(limiter.available_tokens_at(0), 3);
    assert!(limiter.try_acquire_n_at(0, 0));
    let metrics = limiter.metrics();
    assert_eq!(metrics.total_acquired, 7);
    assert_eq!(metrics.total_rejected, 2);
}

#[test]
fn inactivity_is_measured_from_the_last_access() {
    let clock = MonotonicClock::start();
    let mut limiter = RateLimiter::with_clock(limit(10, 1, 1000), clock, 0);
    assert!(limiter.try_acquire_n_at(1, 100));
    assert!(!limiter.is_inactive_at(500, 599));
    assert!(!limiter.is_inactive_at(500, 600));
    assert!(limiter.is_inactive_at(500, 601));
    assert!(!limiter.is_inactive_default());
}

#[test]
fn presets() {
    let game = RateLimiterConfig::game_server_default();
    assert_eq!((game.max_tokens, game.refill_rate, game.refill_interval_ms), (50, 10, 1000));
    let high = RateLimiterConfig::high_frequency();
    assert_eq!((high.max_tokens, high.refill_rate, high.refill_interval_ms), (20, 20, 1000));
    let low = RateLimiterConfig::low_frequency();
    assert_eq!((low.max_tokens, low.refill_rate, low.refill_interval_ms), (5, 1, 10_000));
    assert_eq!(low.ordering, MemoryOrdering::Sequential);
    assert_eq!(RateLimiterConfig::default().max_tokens, 50);
}

#[test]
fn memory_orderings() {
    assert_eq!(MemoryOrdering::Relaxed.load(), AtomicAccess::Relaxed);
    assert_eq!(MemoryOrdering::AcquireRelease.load(), AtomicAccess::Acquire);
    assert_eq!(MemoryOrdering::AcquireRelease.store(), AtomicAccess::Release);
    assert_eq!(MemoryOrdering::Sequential.store(), AtomicAccess::SeqCst);
    assert_eq!(
        MemoryOrdering::AcquireRelease.compare_exchange(),
        (AtomicAccess::AcqRel, AtomicAccess::Acquire)
    );
    assert_eq!(
        MemoryOrdering::Sequential.compare_exchange(),
        (AtomicAccess::SeqCst, AtomicAccess::SeqCst)
    );
}

#[test]
fn addresses_have_buckets_of_their_own() {
    let mut manager = IpRateLimiterManager::with_clock(limit(2, 2, 1000), MonotonicClock::start());
    assert!(manager.try_acquire_n_at(local(1), 2, 0));
    assert!(!manager.try_acquire_n_at(local(1), 1, 0));
    assert!(manager.try_acquire_n_at(local(2), 1, 0));
    assert_eq!(manager.active_ips(), 2);
    let mut shown = manager.all_metrics();
    shown.sort_by_key(|entry| entry.1.total_acquired);
    assert_eq!(shown.len(), 2);
    assert_eq!(shown[0].0, local(2));
    assert_eq!(shown[0].1.total_acquired, 1);
    assert_eq!(shown[1].0, local(1));
    assert_eq!(shown[1].1.total_acquired, 2);
    assert_eq!(shown[1].1.total_rejected, 1);
    let limiter = manager.get_limiter_at(local(2), 0).unwrap();
    assert_eq!(manager.limiter_metrics(&limiter).unwrap().current_tokens, 1);
}

#[test]
fn an_ipv6_address_is_not_mistaken_for_an_ipv4_address() {
    let mut manager = IpRateLimiterManager::with_clock(limit(1, 1, 1000), MonotonicClock::start());
    assert!(manager.try_acquire_n_at(IpAddr::V4(0, 0, 0, 9), 1, 0));
    assert!(manager.try_acquire_n_at(IpAddr::V6(9), 1, 0));
    assert_eq!(manager.active_ips(), 2);
}

#[test]
fn cleanup_keeps_active_addresses() {
    let mut manager = IpRateLimiterManager::with_clock(limit(5, 5, 1000), MonotonicClock::start());
    manager.set_cleanup(1000, 1000);
    assert!(manager.try_acquire_n_at(local(1), 1, 0));
    assert!(manager.try_acquire_n_at(local(2), 1, 900));
    manager.cleanup_at(1500);
    assert_eq!(manager.active_ips(), 1);
    assert!(manager.try_acquire_n_at(local(2), 4, 1500));
    assert_eq!(manager.manager_metrics().total_cleaned, 1);
    assert_eq!(manager.manager_metrics().capacity_remaining, MAX_TRACKED_IPS - 1);
    assert_eq!(manager.memory_pressure(), 0);
}

#[test]
fn a_full_manager_drops_the_addresses_that_were_used_longest_ago() {
    let mut manager = IpRateLimiterManager::with_clock(limit(5, 5, 1000), MonotonicClock::start());
    for i in 0..MAX_TRACKED_IPS {
        assert!(manager.try_acquire_n_at(numbered(i), 1, i as u64));
    }
    assert!(manager.active_ips() <= MAX_TRACKED_IPS);
    assert!(manager.try_acquire_n_at(numbered(MAX_TRACKED_IPS), 1, MAX_TRACKED_IPS as u64));
    assert!(manager.active_ips() <= MAX_TRACKED_IPS);
    assert!(manager.active_ips() >= EMERGENCY_TARGET_SIZE);
    let last = manager.all_metrics();
    assert!(last.iter().any(|entry| entry.0 == numbered(MAX_TRACKED_IPS)));
    assert!(last.iter().any(|entry| entry.0 == numbered(MAX_TRACKED_IPS - 1)));
    assert!(!last.iter().any(|entry| entry.0 == numbered(0)));
}

#[test]
fn the_shared_limit_is_looked_at_too() {
    let clock = MonotonicClock::start();
    let mut own = IpRateLimiterManager::with_clock(limit(2, 2, 1000), clock);
    let mut shared = RateLimiter::with_clock(limit(3, 3, 1000), clock, 0);
    assert!(!limit_reached_at(&mut own, &mut shared, local(1), 0));
    assert!(!limit_reached_at(&mut own, &mut shared, local(1), 0));
    assert!(limit_reached_at(&mut own, &mut shared, local(1), 0));
    assert!(!limit_reached_at(&mut own, &mut shared, local(2), 0));
    assert!(limit_reached_at(&mut own, &mut shared, local(2), 0));
}

#[test]
fn a_limiter_is_made_for_an_address() {
    let mut manager = IpRateLimiterManager::new(limit(3, 3, 1000));
    let limiter = manager.get_limiter(local(1)).unwrap();
    assert_eq!(limiter.ip(), local(1));
    assert_eq!(manager.limiter_metrics(&limiter).unwrap().current_tokens, 3);
    assert_eq!(manager.active_ips(), 1);
    assert_eq!(manager.acquire(&limiter, 1), Some(true));
    assert!(manager.try_acquire_n(local(1), 2));
    assert!(!RateLimiter::new(1, 1).is_inactive(1000));
}

#[test]
fn there_is_one_limiter_for_an_address() {
    let mut manager = IpRateLimiterManager::with_clock(limit(3, 3, 1000), MonotonicClock::start());
    let first = manager.get_limiter_at(local(1), 0).unwrap();
    assert_eq!(manager.manager_metrics().total_created, 1);
    let second = manager.get_limiter_at(local(1), 0).unwrap();
    assert_eq!(manager.manager_metrics().total_created, 1);
    assert_eq!(manager.active_ips(), 1);
    assert_eq!(manager.acquire_at(&first, 2, 0), Some(true));
    assert_eq!(manager.limiter_metrics(&second).unwrap().current_tokens, 1);
    assert_eq!(manager.acquire_at(&second, 2, 0), Some(false));
    assert!(manager.try_acquire_n_at(local(1), 1, 0));
    assert_eq!(manager.acquire_at(&first, 1, 0), Some(false));
    assert_eq!(manager.limiter_metrics(&first).unwrap().total_rejected, 2);
    manager.cleanup_at(400_000);
    assert!(manager.limiter_metrics(&first).is_none());
    assert_eq!(manager.acquire_at(&first, 3, 400_000), None);
    assert_eq!(manager.active_ips(), 0);
    assert_eq!(manager.manager_metrics().total_created, 1);
    assert_eq!(manager.manager_metrics().total_cleaned, 1);
}

#[test]
fn handles_leave_other_addresses_alone() {
    let mut manager = IpRateLimiterManager::with_clock(limit(5, 5, 1000), MonotonicClock::start());
    let first = manager.get_limiter_at(numbered(0), 0).unwrap();
    for i in 1..9000 {
        assert!(manager.try_acquire_n_at(numbered(i), 1, i as u64));
    }
    assert_eq!(manager.active_ips(), 9000);
    assert_eq!(manager.acquire_at(&first, 1, 9000), Some(true));
    assert_eq!(manager.active_ips(), 9000);
    assert_eq!(manager.manager_metrics().total_cleaned, 0);
}
