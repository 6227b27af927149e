use service_core::cache::TtlCache;
use service_core::errors::ResourceError;
use service_core::limiter::RateLimiter;
use service_core::pool::ConnectionPool;
use service_core::scheduler::TaskInfo;
use service_core::scheduler::TaskPriority;
use service_core::scheduler::TaskQueue;
use service_core::scheduler::TaskScheduler;
use service_core::scheduler::TaskStatus;

fn record(id: u64, name: &str, priority: TaskPriority) -> TaskInfo {
    TaskInfo {
        id,
        name: name.to_string(),
        priority,
        status: TaskStatus::Pending,
        created_at: 0,
        started_at: None,
        completed_at: None,
    }
}

#[test]
fn pool_bounded_acquires() {
    let mut pool = ConnectionPool::new(2);
    assert_eq!(pool.acquire(10), Ok(0));
    assert_eq!(pool.acquire(11), Ok(1));
    assert_eq!(pool.acquire(12), Err(ResourceError::ResourceExhausted));
    assert_eq!(pool.in_use_count(), 2);
    assert_eq!(pool.connection_count(), 2);
}

#[test]
fn pool_reuses_released_connection() {
    let mut pool = ConnectionPool::new(5);
    assert_eq!(pool.acquire(1), Ok(0));
    assert_eq!(pool.acquire(2), Ok(1));
    assert_eq!(pool.acquire(3), Ok(2));
    pool.release(1);
    // the fourth acquire reuses the released connection's identifier
    assert_eq!(pool.acquire(4), Ok(1));
    assert_eq!(pool.connection_count(), 3);
    assert_eq!(pool.in_use_count(), 3);
}

#[test]
fn scoped_acquisition_releases_exactly_once() {
    let mut pool = ConnectionPool::new(1);
    let out = pool.with_connection(5, |id| Ok::<u64, ResourceError>(id + 40));
    assert_eq!(out, Ok(40));
    assert_eq!(pool.in_use_count(), 0);
    // the connection is released even when the work fails midway
    let failed: Result<u64, ResourceError> =
        pool.with_connection(6, |_id| Err(ResourceError::Timeout));
    assert_eq!(failed, Err(ResourceError::Timeout));
    assert_eq!(pool.in_use_count(), 0);
    // an exhausted pool refuses before the work ever runs
    let held = pool.acquire(7).unwrap();
    let refused: Result<u64, ResourceError> = pool.with_connection(8, |_id| Ok(1));
    assert_eq!(refused, Err(ResourceError::ResourceExhausted));
    pool.release(held);
}

#[test]
fn pool_release_unknown_id_is_ignored() {
    let mut pool = ConnectionPool::new(1);
    pool.release(7);
    assert_eq!(pool.connection_count(), 0);
    assert_eq!(pool.acquire(5), Ok(0));
}

#[test]
fn ttl_cache_serves_until_expiry() {
    let mut cache = TtlCache::new();
    cache.set(1, "payload".to_string(), 10, 100);
    assert_eq!(cache.get(1, 100), Some("payload".to_string()));
    assert_eq!(cache.get(1, 109), Some("payload".to_string()));
    assert_eq!(cache.get(1, 110), None);
    assert_eq!(cache.get(1, 200), None);
    // the entry is not removed by a miss
    assert_eq!(cache.len(), 1);
}

#[test]
fn ttl_cache_overwrite_restamps() {
    let mut cache = TtlCache::new();
    cache.set(1, "old".to_string(), 5, 100);
    cache.set(1, "new".to_string(), 5, 104);
    assert_eq!(cache.get(1, 107), Some("new".to_string()));
    assert_eq!(cache.len(), 1);
}

#[test]
fn ttl_cache_evicts_zero_ttl_entries() {
    let mut cache = TtlCache::new();
    for key in 0..4u64 {
        cache.set(key, format!("v{}", key), 0, 50);
    }
    let (before, valid_after) = cache.evict_expired(51);
    assert_eq!(before, 4);
    assert_eq!(valid_after, 0);
    assert_eq!(cache.len(), 0);
}

#[test]
fn ttl_cache_eviction_keeps_valid_entries() {
    let mut cache = TtlCache::new();
    cache.set(1, "stays".to_string(), 100, 10);
    cache.set(2, "goes".to_string(), 5, 10);
    let (before, valid_after) = cache.evict_expired(20);
    assert_eq!(before, 2);
    assert_eq!(valid_after, 1);
    assert_eq!(cache.get(1, 20), Some("stays".to_string()));
    assert_eq!(cache.get(2, 20), None);
}

#[test]
fn ttl_cache_stats_count_valid() {
    let mut cache = TtlCache::new();
    cache.set(1, "a".to_string(), 100, 10);
    cache.set(2, "b".to_string(), 5, 10);
    assert_eq!(cache.cache_stats(20), (2, 1));
    assert_eq!(cache.len(), 2);
}

#[test]
fn fetch_with_cache_hits_and_misses() {
    let mut cache = TtlCache::new();
    let fetched = cache.fetch_with_cache(7, |k| format!("fetched-{}", k), 60, 1000);
    assert_eq!(fetched, "fetched-7".to_string());
    // a hit returns the stored value without fetching again
    let hit = cache.fetch_with_cache(7, |_k| "other".to_string(), 60, 1030);
    assert_eq!(hit, "fetched-7".to_string());
    // once expired, the miss fetches anew
    let again = cache.fetch_with_cache(7, |_k| "fresh".to_string(), 60, 2000);
    assert_eq!(again, "fresh".to_string());
}

#[test]
fn rate_limiter_window_cycle() {
    let mut limiter = RateLimiter::new(3, 5);
    assert!(limiter.allow(10));
    assert!(limiter.allow(10));
    assert!(limiter.allow(10));
    assert!(!limiter.allow(10));
    // an entry exactly as old as the window has expired
    assert!(limiter.allow(15));
}

#[test]
fn rate_limiter_boundary_is_exclusive() {
    let mut limiter = RateLimiter::new(1, 5);
    assert!(limiter.allow(10));
    assert!(!limiter.allow(14));
    assert!(limiter.allow(15));
}

#[test]
fn rate_limiter_prunes_old_entries() {
    let mut limiter = RateLimiter::new(2, 10);
    assert!(limiter.allow(0));
    assert!(limiter.allow(1));
    assert_eq!(limiter.recorded_count(), 2);
    assert!(limiter.allow(100));
    assert_eq!(limiter.recorded_count(), 1);
}

#[test]
fn scheduler_ids_unique_and_increasing() {
    let mut scheduler = TaskScheduler::new();
    let a = scheduler.register_task("first".to_string(), TaskPriority::Normal, 1);
    let b = scheduler.register_task("second".to_string(), TaskPriority::High, 2);
    let c = scheduler.register_task("third".to_string(), TaskPriority::Low, 3);
    assert!(a < b && b < c);
    assert_eq!(scheduler.task_count(), 3);
    let ids: Vec<u64> = scheduler.get_all_tasks().iter().map(|t| t.id).collect();
    let mut deduped = ids.clone();
    deduped.dedup();
    assert_eq!(ids, deduped);
}

#[test]
fn scheduler_lifecycle_transitions() {
    let mut scheduler = TaskScheduler::new();
    let id = scheduler.register_task("job".to_string(), TaskPriority::Critical, 5);
    assert_eq!(scheduler.get_task_info(id).unwrap().status, TaskStatus::Pending);
    assert_eq!(scheduler.running_count(), 0);

    assert!(scheduler.mark_running(id, 6));
    let running = scheduler.get_task_info(id).unwrap();
    assert_eq!(running.status, TaskStatus::Running);
    assert_eq!(running.started_at, Some(6));
    assert_eq!(scheduler.running_count(), 1);

    // only a pending task can start
    assert!(!scheduler.mark_running(id, 7));

    assert!(scheduler.mark_completed(id, 8));
    let done = scheduler.get_task_info(id).unwrap();
    assert_eq!(done.status, TaskStatus::Completed);
    assert_eq!(done.completed_at, Some(8));
    assert_eq!(scheduler.running_count(), 0);

    // only a running task can complete
    assert!(!scheduler.mark_completed(id, 9));
    // unknown identifiers change nothing
    assert!(!scheduler.mark_running(999, 9));
}

#[test]
fn scheduler_lists_by_priority() {
    let mut scheduler = TaskScheduler::new();
    scheduler.register_task("a".to_string(), TaskPriority::Low, 1);
    scheduler.register_task("b".to_string(), TaskPriority::High, 2);
    scheduler.register_task("c".to_string(), TaskPriority::High, 3);
    let high = scheduler.get_tasks_by_priority(TaskPriority::High);
    assert_eq!(high.len(), 2);
    assert_eq!(high[0].name, "b");
    assert_eq!(high[1].name, "c");
    assert_eq!(scheduler.get_tasks_by_priority(TaskPriority::Critical).len(), 0);
}

#[test]
fn queue_fifo_dequeue() {
    let mut queue = TaskQueue::new();
    assert!(queue.is_empty());
    assert!(queue.dequeue().is_none());
    queue.enqueue(record(1, "first", TaskPriority::Normal)).unwrap();
    queue.enqueue(record(2, "second", TaskPriority::Normal)).unwrap();
    assert_eq!(queue.size(), 2);
    assert_eq!(queue.dequeue().unwrap().id, 1);
    assert_eq!(queue.dequeue().unwrap().id, 2);
    assert!(queue.is_empty());
}

#[test]
fn queue_capacity_exhaustion() {
    let mut queue = TaskQueue::with_max_size(2);
    queue.enqueue(record(1, "a", TaskPriority::Low)).unwrap();
    queue.enqueue(record(2, "b", TaskPriority::Low)).unwrap();
    let refused = queue.enqueue(record(3, "c", TaskPriority::Low));
    assert_eq!(refused, Err(ResourceError::ResourceExhausted));
    assert_eq!(queue.size(), 2);
}

#[test]
fn queue_priority_order_with_stable_ties() {
    let mut queue = TaskQueue::new();
    queue.enqueue(record(1, "low", TaskPriority::Low)).unwrap();
    queue.enqueue(record(2, "critical-early", TaskPriority::Critical)).unwrap();
    queue.enqueue(record(3, "normal", TaskPriority::Normal)).unwrap();
    queue.enqueue(record(4, "critical-late", TaskPriority::Critical)).unwrap();

    let first = queue.dequeue_by_priority().unwrap();
    assert_eq!((first.id, first.priority), (2, TaskPriority::Critical));
    let second = queue.dequeue_by_priority().unwrap();
    assert_eq!((second.id, second.priority), (4, TaskPriority::Critical));
    let third = queue.dequeue_by_priority().unwrap();
    assert_eq!((third.id, third.priority), (3, TaskPriority::Normal));
    let fourth = queue.dequeue_by_priority().unwrap();
    assert_eq!((fourth.id, fourth.priority), (1, TaskPriority::Low));
    assert!(queue.dequeue_by_priority().is_none());
}

#[test]
fn end_to_end_admission_and_pool() {
    // admission control first, then the pool, as a request path would
    let mut limiter = RateLimiter::new(2, 100);
    let mut pool = ConnectionPool::new(2);
    assert!(limiter.allow(0));
    let conn = pool.acquire(0).unwrap();
    assert!(limiter.allow(1));
    let _second = pool.acquire(1).unwrap();
    assert!(!limiter.allow(2));
    pool.release(conn);
    assert_eq!(pool.acquire(3), Ok(conn));
}
