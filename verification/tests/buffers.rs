//! Buffer pools.

use bytes::BytesMut;
use cncnet_server::buffer_pool::{init_global_pool, BufferGuard, BufferPool, SizeClass, Tuning};

#[test]
fn pools_are_filled_in_advance() {
    let pool = init_global_pool();
    let stats = pool.get_stats();
    assert_eq!((stats.small.pooled, stats.medium.pooled, stats.large.pooled), (100, 50, 10));
    assert_eq!((stats.small.allocated, stats.medium.allocated, stats.large.allocated), (200, 100, 20));
}

#[test]
fn buffers_are_zeroed() {
    let mut pool = BufferPool::new();
    let mut buffer = pool.acquire_medium();
    assert_eq!(buffer.len(), 1024);
    for byte in buffer.iter_mut() {
        *byte = 9;
    }
    let capacity = buffer.capacity();
    pool.clear_pools();
    pool.release_medium(buffer);
    assert_eq!(pool.get_stats().medium.pooled, if capacity <= 2048 { 1 } else { 0 });
    let again = pool.acquire_medium();
    assert_eq!(again.to_vec(), vec![0u8; 1024]);
}

#[test]
fn an_empty_pool_makes_buffers() {
    let mut pool = BufferPool::new();
    pool.clear_pools();
    assert_eq!(pool.acquire_small().len(), 64);
    assert_eq!(pool.acquire_large().len(), 8192);
    let stats = pool.get_stats();
    assert_eq!((stats.small.hits, stats.small.misses, stats.small.allocated), (0, 1, 201));
    assert_eq!((stats.large.hits, stats.large.misses, stats.large.allocated), (0, 1, 21));
}

#[test]
fn buffers_of_the_wrong_size_are_dropped() {
    let mut pool = BufferPool::new();
    pool.release_small(BytesMut::with_capacity(4096));
    pool.release_large(BytesMut::with_capacity(64));
    assert_eq!(pool.get_stats().small.pooled, 100);
    assert_eq!(pool.get_stats().large.pooled, 10);
    pool.small.release_sized(BytesMut::new(), 32);
    assert_eq!(pool.get_stats().small.pooled, 101);
    pool.small.release_sized(BytesMut::new(), 31);
    pool.small.release_sized(BytesMut::new(), 129);
    assert_eq!(pool.get_stats().small.pooled, 101);
}

#[test]
fn a_full_pool_drops_buffers() {
    let mut pool = BufferPool::new();
    for _ in 0..100 {
        pool.large.release_sized(BytesMut::new(), 8192);
    }
    assert_eq!(pool.get_stats().large.pooled, 100);
    assert_eq!(pool.get_stats().large.allocated, 10);
    pool.shrink_pools();
    assert_eq!(pool.get_stats().large.pooled, 50);
    assert_eq!(pool.get_stats().small.pooled, 100);
}

#[test]
fn pools_shrink_when_they_are_hardly_missed() {
    let mut pool = BufferPool::new();
    assert!(!pool.maintain());
    for _ in 0..40 {
        pool.acquire_medium();
    }
    assert!(pool.maintain());
    for _ in 0..12 {
        pool.acquire_medium();
    }
    assert_eq!(pool.get_stats().medium.misses, 2);
    assert!(pool.maintain());
    pool.acquire_medium();
    assert!(!pool.maintain());
}

#[test]
fn guards_give_buffers_back() {
    let mut pool = BufferPool::new();
    let mut guard = BufferGuard::small(pool.acquire_small());
    assert_eq!(guard.as_ref().unwrap().len(), 64);
    guard.as_mut().unwrap()[0] = 5;
    assert_eq!(guard.as_ref().unwrap()[0], 5);
    assert_eq!(pool.get_stats().small.pooled, 99);
    guard.release_into(&mut pool);
    assert!(guard.as_ref().is_none());
    assert_eq!(pool.get_stats().small.pooled, 100);
    guard.release_into(&mut pool);
    assert_eq!(pool.get_stats().small.pooled, 100);
    let mut taken = BufferGuard::medium(pool.acquire_medium());
    assert_eq!(taken.take().unwrap().len(), 1024);
    taken.release_into(&mut pool);
    assert_eq!(pool.get_stats().medium.pooled, 49);
    let large = BufferGuard::large(pool.acquire_large());
    assert_eq!(large.size_class, SizeClass::Large);
}

#[test]
fn pools_are_tuned_to_the_processor() {
    let mut pool = BufferPool::with_tuning(Tuning::Arm64);
    let stats = pool.get_stats();
    assert_eq!((stats.small.pooled, stats.medium.pooled, stats.large.pooled), (200, 100, 20));
    assert_eq!((stats.small.allocated, stats.medium.allocated, stats.large.allocated), (200, 100, 20));
    assert_eq!(SizeClass::Small.max_pooled(Tuning::Arm64), 2000);
    assert_eq!(SizeClass::Medium.max_pooled(Tuning::Arm64), 1000);
    assert_eq!(SizeClass::Large.max_pooled(Tuning::Arm64), 200);
    assert_eq!(SizeClass::Large.max_pooled(Tuning::Standard), 100);
    assert_eq!(Tuning::Arm64.maintenance_interval_secs(), 30);
    assert_eq!(Tuning::Standard.maintenance_interval_secs(), 60);
    for _ in 0..102 {
        pool.acquire_medium();
    }
    assert_eq!(pool.get_stats().medium.misses, 2);
    assert!(pool.maintain());
    pool.acquire_medium();
    assert!(!pool.maintain());
}

#[test]
fn long_buffers_are_dropped() {
    let mut pool = BufferPool::new();
    pool.release_small(BytesMut::zeroed(129));
    pool.release_medium(BytesMut::zeroed(2049));
    pool.release_large(BytesMut::zeroed(16385));
    let stats = pool.get_stats();
    assert_eq!((stats.small.pooled, stats.medium.pooled, stats.large.pooled), (100, 50, 10));
    assert_eq!((stats.small.allocated, stats.medium.allocated, stats.large.allocated), (200, 100, 20));
}
