use component_service::cache::{Abandon, Cache, Completion, Leave, Lookup};
use component_service::model::{ComponentId, ComponentKey};

fn key(id: u128, version: u64) -> ComponentKey {
    ComponentKey { component_id: ComponentId(id), component_version: version }
}

#[test]
fn first_request_leads_and_the_rest_wait() {
    let mut cache: Cache<String> = Cache::new(4, 1000);
    let k = key(1, 7);
    assert_eq!(cache.request(k, 0), Lookup::Lead);
    for _ in 0..63 {
        assert_eq!(cache.request(k, 0), Lookup::Wait);
    }
    assert_eq!(cache.len(), 0);
    assert!(!cache.contains(&k));
    assert_eq!(
        cache.complete(k, Some("artifact".to_string()), 5),
        Completion::Stored { waiters: 63, evicted: None }
    );
    assert_eq!(cache.len(), 1);
    assert_eq!(cache.get(&k), Some(&"artifact".to_string()));
    assert_eq!(cache.request(k, 6), Lookup::Hit);
}

#[test]
fn distinct_keys_lead_independently() {
    let mut cache: Cache<u32> = Cache::new(4, 1000);
    assert_eq!(cache.request(key(1, 1), 0), Lookup::Lead);
    assert_eq!(cache.request(key(1, 2), 0), Lookup::Lead);
    assert_eq!(cache.request(key(2, 1), 0), Lookup::Lead);
    assert_eq!(cache.request(key(1, 1), 0), Lookup::Wait);
}

#[test]
fn failure_is_not_kept() {
    let mut cache: Cache<u32> = Cache::new(4, 1000);
    let k = key(9, 1);
    assert_eq!(cache.request(k, 0), Lookup::Lead);
    assert_eq!(cache.request(k, 1), Lookup::Wait);
    assert_eq!(cache.complete(k, None, 2), Completion::Failed { waiters: 1 });
    assert_eq!(cache.len(), 0);
    assert_eq!(cache.get(&k), None);
    assert_eq!(cache.request(k, 3), Lookup::Lead);
    assert_eq!(cache.complete(k, Some(11), 4), Completion::Stored { waiters: 0, evicted: None });
    assert_eq!(cache.len(), 1);
    assert_eq!(cache.get(&k), Some(&11));
}

#[test]
fn completing_what_is_not_pending_changes_nothing() {
    let mut cache: Cache<u32> = Cache::new(4, 1000);
    let k = key(9, 1);
    assert_eq!(cache.complete(k, Some(1), 0), Completion::NotPending);
    assert_eq!(cache.len(), 0);
    assert_eq!(cache.request(k, 0), Lookup::Lead);
    assert_eq!(cache.complete(k, Some(1), 0), Completion::Stored { waiters: 0, evicted: None });
    assert_eq!(cache.complete(k, Some(2), 0), Completion::NotPending);
    assert_eq!(cache.get(&k), Some(&1));
}

#[test]
fn full_cache_evicts_least_recently_used() {
    let mut cache: Cache<u32> = Cache::new(2, 1000);
    let (a, b, c) = (key(1, 1), key(2, 1), key(3, 1));
    assert_eq!(cache.request(a, 0), Lookup::Lead);
    assert_eq!(cache.complete(a, Some(10), 0), Completion::Stored { waiters: 0, evicted: None });
    assert_eq!(cache.request(b, 1), Lookup::Lead);
    assert_eq!(cache.complete(b, Some(20), 1), Completion::Stored { waiters: 0, evicted: None });
    // `a` is used again, so `b` is the least recently used value.
    assert_eq!(cache.request(a, 2), Lookup::Hit);
    assert_eq!(cache.request(c, 3), Lookup::Lead);
    assert_eq!(
        cache.complete(c, Some(30), 3),
        Completion::Stored { waiters: 0, evicted: Some(b) }
    );
    assert_eq!(cache.len(), 2);
    assert_eq!(cache.get(&a), Some(&10));
    assert_eq!(cache.get(&b), None);
    assert_eq!(cache.get(&c), Some(&30));
    // The evicted key is computed anew.
    assert_eq!(cache.request(b, 4), Lookup::Lead);
}

#[test]
fn pending_entries_are_never_evicted() {
    let mut cache: Cache<u32> = Cache::new(1, 10);
    let (a, b, c) = (key(1, 1), key(2, 1), key(3, 1));
    assert_eq!(cache.request(a, 0), Lookup::Lead);
    assert_eq!(cache.request(b, 0), Lookup::Lead);
    assert_eq!(cache.complete(b, Some(2), 0), Completion::Stored { waiters: 0, evicted: None });
    assert_eq!(cache.request(c, 0), Lookup::Lead);
    assert_eq!(cache.complete(c, Some(3), 0), Completion::Stored { waiters: 0, evicted: Some(b) });
    assert_eq!(cache.sweep(1_000_000), 1);
    assert_eq!(cache.request(a, 1_000_000), Lookup::Wait);
    assert_eq!(
        cache.complete(a, Some(1), 1_000_000),
        Completion::Stored { waiters: 1, evicted: None }
    );
}

#[test]
fn cache_without_room_keeps_nothing() {
    let mut cache: Cache<u32> = Cache::new(0, 1000);
    let k = key(1, 1);
    assert_eq!(cache.request(k, 0), Lookup::Lead);
    assert_eq!(cache.complete(k, Some(10), 0), Completion::Stored { waiters: 0, evicted: Some(k) });
    assert_eq!(cache.len(), 0);
    assert_eq!(cache.request(k, 1), Lookup::Lead);
}

#[test]
fn idle_entry_is_swept_and_computed_anew() {
    let mut cache: Cache<u32> = Cache::new(4, 100);
    let k = key(0xabc, 1);
    assert_eq!(cache.request(k, 0), Lookup::Lead);
    assert_eq!(cache.complete(k, Some(5), 0), Completion::Stored { waiters: 0, evicted: None });
    // Sweeps every 50 ms: the entry stays as long as it has not been idle
    // for more than 100 ms.
    assert_eq!(cache.sweep(50), 0);
    assert_eq!(cache.sweep(100), 0);
    assert!(cache.contains(&k));
    assert_eq!(cache.sweep(150), 1);
    assert_eq!(cache.len(), 0);
    assert_eq!(cache.sweep(300), 0);
    assert_eq!(cache.get(&k), None);
    assert_eq!(cache.request(k, 300), Lookup::Lead);
}

#[test]
fn use_postpones_the_sweep() {
    let mut cache: Cache<u32> = Cache::new(4, 100);
    let (a, b) = (key(1, 1), key(2, 1));
    assert_eq!(cache.request(a, 0), Lookup::Lead);
    assert_eq!(cache.complete(a, Some(1), 0), Completion::Stored { waiters: 0, evicted: None });
    assert_eq!(cache.request(b, 0), Lookup::Lead);
    assert_eq!(cache.complete(b, Some(2), 0), Completion::Stored { waiters: 0, evicted: None });
    assert_eq!(cache.request(a, 90), Lookup::Hit);
    assert_eq!(cache.sweep(101), 1);
    assert_eq!(cache.get(&a), Some(&1));
    assert_eq!(cache.get(&b), None);
    assert_eq!(cache.sweep(190), 0);
    assert_eq!(cache.sweep(191), 1);
    assert_eq!(cache.len(), 0);
}

#[test]
fn sweep_before_the_idle_time_has_passed_at_all() {
    let mut cache: Cache<u32> = Cache::new(4, u64::MAX);
    let k = key(1, 1);
    assert_eq!(cache.request(k, 5), Lookup::Lead);
    assert_eq!(cache.complete(k, Some(1), 5), Completion::Stored { waiters: 0, evicted: None });
    assert_eq!(cache.sweep(u64::MAX), 0);
    assert_eq!(cache.get(&k), Some(&1));
}

#[test]
fn abandoned_leader_is_replaced_by_a_waiter() {
    let mut cache: Cache<u32> = Cache::new(4, 1000);
    let k = key(1, 1);
    assert!(!cache.take_over(k));
    assert_eq!(cache.request(k, 0), Lookup::Lead);
    assert_eq!(cache.request(k, 0), Lookup::Wait);
    assert_eq!(cache.request(k, 0), Lookup::Wait);
    assert!(!cache.take_over(k));
    assert_eq!(cache.abandon(k), Abandon::Promoted);
    // The computation has no leader: nobody can report an outcome or give
    // it up, and exactly one of the two waiters takes over.
    assert_eq!(cache.complete(k, Some(1), 1), Completion::NotPending);
    assert_eq!(cache.abandon(k), Abandon::NotPending);
    assert!(cache.take_over(k));
    assert!(!cache.take_over(k));
    // The other one still waits, and so does a caller that comes now.
    assert_eq!(cache.request(k, 1), Lookup::Wait);
    assert_eq!(cache.complete(k, Some(3), 2), Completion::Stored { waiters: 2, evicted: None });
    assert_eq!(cache.get(&k), Some(&3));
}

#[test]
fn caller_that_asks_takes_a_leaderless_computation_over() {
    let mut cache: Cache<u32> = Cache::new(4, 1000);
    let k = key(1, 1);
    assert_eq!(cache.request(k, 0), Lookup::Lead);
    assert_eq!(cache.request(k, 0), Lookup::Wait);
    assert_eq!(cache.abandon(k), Abandon::Promoted);
    assert_eq!(cache.request(k, 1), Lookup::Lead);
    assert!(!cache.take_over(k));
    assert_eq!(cache.request(k, 1), Lookup::Wait);
    assert_eq!(cache.complete(k, None, 2), Completion::Failed { waiters: 2 });
    assert_eq!(cache.request(k, 3), Lookup::Lead);
}

#[test]
fn abandoned_leader_without_waiters_leaves_no_entry() {
    let mut cache: Cache<u32> = Cache::new(4, 1000);
    let k = key(1, 1);
    assert_eq!(cache.abandon(k), Abandon::NotPending);
    assert_eq!(cache.request(k, 0), Lookup::Lead);
    assert_eq!(cache.abandon(k), Abandon::Dropped);
    assert_eq!(cache.request(k, 1), Lookup::Lead);
    assert_eq!(cache.complete(k, Some(3), 2), Completion::Stored { waiters: 0, evicted: None });
    assert_eq!(cache.abandon(k), Abandon::NotPending);
    assert_eq!(cache.get(&k), Some(&3));
}

#[test]
fn waiter_that_leaves_is_not_counted() {
    let mut cache: Cache<u32> = Cache::new(4, 1000);
    let k = key(1, 1);
    assert_eq!(cache.leave(k), Leave::NotWaiting);
    assert_eq!(cache.request(k, 0), Lookup::Lead);
    assert_eq!(cache.leave(k), Leave::NotWaiting);
    assert_eq!(cache.request(k, 0), Lookup::Wait);
    assert_eq!(cache.request(k, 0), Lookup::Wait);
    assert_eq!(cache.leave(k), Leave::Left);
    assert_eq!(cache.complete(k, None, 1), Completion::Failed { waiters: 1 });
    assert_eq!(cache.leave(k), Leave::NotWaiting);
}

#[test]
fn last_waiter_takes_a_leaderless_computation_along() {
    let mut cache: Cache<u32> = Cache::new(4, 1000);
    let k = key(1, 1);
    assert_eq!(cache.request(k, 0), Lookup::Lead);
    assert_eq!(cache.request(k, 0), Lookup::Wait);
    assert_eq!(cache.request(k, 0), Lookup::Wait);
    assert_eq!(cache.abandon(k), Abandon::Promoted);
    assert_eq!(cache.leave(k), Leave::Left);
    assert_eq!(cache.leave(k), Leave::Dropped);
    assert!(!cache.take_over(k));
    assert_eq!(cache.request(k, 1), Lookup::Lead);
    assert_eq!(cache.complete(k, Some(8), 2), Completion::Stored { waiters: 0, evicted: None });
}

#[test]
fn led_computation_stays_when_its_last_waiter_leaves() {
    let mut cache: Cache<u32> = Cache::new(4, 1000);
    let k = key(1, 1);
    assert_eq!(cache.request(k, 0), Lookup::Lead);
    assert_eq!(cache.request(k, 0), Lookup::Wait);
    assert_eq!(cache.leave(k), Leave::Left);
    assert_eq!(cache.request(k, 0), Lookup::Wait);
    assert_eq!(cache.complete(k, Some(8), 2), Completion::Stored { waiters: 1, evicted: None });
}

#[test]
fn new_cache_reports_its_bounds() {
    let cache: Cache<u32> = Cache::new(17, 250);
    assert_eq!(cache.capacity(), 17);
    assert_eq!(cache.time_to_idle(), 250);
    assert_eq!(cache.len(), 0);
}
