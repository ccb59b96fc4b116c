use moraebox::pool::{PoolConfig, PoolError, PreparedKey, PreparedPool};
use moraebox::time::Duration;

fn pool<'a>(max_size: usize, idle_ttl: Duration) -> PreparedPool<&'a str, i32> {
    PreparedPool::new(PoolConfig { max_size, idle_ttl }).unwrap()
}

fn at(millis: u64) -> Duration {
    Duration::from_millis(millis)
}

#[test]
fn lease_is_single_use_and_capacity_is_bounded() {
    let mut pool = pool(1, Duration::from_secs(1));
    pool.put("key", 7, at(0)).unwrap();
    assert_eq!(pool.put("key", 8, at(0)), Err(PoolError::Full(1)));
    let lease = pool.lease(&"key", at(0)).unwrap();
    assert_eq!(lease.into_inner(), 7);
    assert!(pool.lease(&"key", at(0)).is_none());
}

#[test]
fn lease_never_crosses_prepared_keys() {
    let mut pool = pool(2, Duration::from_secs(1));
    pool.put("image-a", 7, at(0)).unwrap();

    assert!(pool.lease(&"image-b", at(0)).is_none());
    assert_eq!(pool.lease(&"image-a", at(0)).unwrap().into_inner(), 7);
}

#[test]
fn expired_units_are_destroyed() {
    let mut pool = pool(1, at(5));
    pool.put("key", 7, at(0)).unwrap();
    assert_eq!(pool.stats(at(10)).ready, 0);
}

#[test]
fn replenishes_only_to_target() {
    let mut pool = pool(4, Duration::from_secs(1));
    let missing = pool.missing(&"key", 2, at(0));
    let mut fresh = Vec::new();
    for _ in 0..missing {
        fresh.push(("key", 7));
    }
    let added = pool.replenish(fresh, at(0));
    assert_eq!(added, 2);
    assert_eq!(pool.stats(at(0)).ready, 2);
    assert_eq!(pool.missing(&"key", 2, at(0)), 0);
    assert_eq!(pool.missing(&"key", 9, at(0)), 2);
}

#[test]
fn units_leave_in_the_order_they_came() {
    let mut pool = pool(3, at(10));
    pool.put("key", 1, at(0)).unwrap();
    pool.put("key", 2, at(4)).unwrap();
    pool.put("other", 3, at(5)).unwrap();
    let stats = pool.stats(at(6));
    assert_eq!((stats.ready, stats.keys, stats.capacity), (3, 2, 3));
    assert_eq!(*pool.lease(&"key", at(6)).unwrap().get(), 1);
    assert_eq!(pool.stats(at(14)).ready, 1);
    assert!(pool.lease(&"key", at(14)).is_none());
    assert_eq!(pool.lease(&"other", at(14)).unwrap().into_inner(), 3);
}

#[test]
fn empty_pools_cannot_be_made() {
    let made = |max_size: usize, idle_ttl: Duration| {
        PreparedPool::<&str, i32>::new(PoolConfig { max_size, idle_ttl }).err()
    };
    assert_eq!(made(0, Duration::zero()), Some(PoolError::ZeroCapacity));
    assert_eq!(made(1, Duration::zero()), Some(PoolError::ZeroTtl));
    assert_eq!(
        PoolError::Full(3).message(),
        "prepared pool is full (capacity 3)"
    );
    assert_eq!(
        PoolError::ZeroCapacity.message(),
        "prepared pool capacity must be non-zero"
    );
    assert_eq!(
        PoolError::ZeroTtl.message(),
        "prepared pool idle TTL must be non-zero"
    );
}

#[test]
fn prepared_keys_are_compared_in_every_part() {
    let key = |image: &str, workspace: Option<&str>| PreparedKey {
        image_digest: image.to_owned(),
        workspace_digest: workspace.map(str::to_owned),
        policy_digest: "p".to_owned(),
    };
    let mut pool = PreparedPool::new(PoolConfig::default()).unwrap();
    pool.put(key("a", None), 1, at(0)).unwrap();
    assert!(pool.lease(&key("a", Some("w")), at(0)).is_none());
    assert!(pool.lease(&key("b", None), at(0)).is_none());
    assert!(pool.lease(&key("a", None), at(0)).is_some());
}
