use fmby::feeds::{FeedStatus, FeedSubscription};
use fmby::scheduler::{select_due, PermitPool};

fn feed(id: u64, status: FeedStatus, interval_minutes: i64, last_checked_at: i64) -> FeedSubscription {
    FeedSubscription {
        id: id as u128,
        url: format!("https://feed{}.example/rss", id),
        name: format!("feed {}", id),
        channel_id: 5,
        guild_id: 6,
        created_by: 7,
        status,
        check_interval_minutes: interval_minutes,
        last_checked_at,
    }
}

#[test]
fn scheduler_respects_concurrency_bound() {
    // Five due feeds, two permits: no more than two checks in flight, ever.
    let mut pool = PermitPool::new(2);
    let mut in_flight: Vec<u64> = Vec::new();
    let mut done: Vec<u64> = Vec::new();
    let mut waiting: Vec<u64> = vec![1, 2, 3, 4, 5];
    let mut max_in_flight = 0;
    while done.len() < 5 {
        // Dispatch as many waiting checks as the pool allows.
        while let Some(&next) = waiting.first() {
            if pool.try_acquire() {
                waiting.remove(0);
                in_flight.push(next);
            } else {
                break;
            }
        }
        if in_flight.len() > max_in_flight {
            max_in_flight = in_flight.len();
        }
        assert!(in_flight.len() <= 2);
        // One check finishes and releases its permit.
        let finished = in_flight.remove(0);
        done.push(finished);
        pool.release();
    }
    assert_eq!(max_in_flight, 2);
    assert_eq!(done, vec![1, 2, 3, 4, 5]);
}

#[test]
fn permit_pool_blocks_at_capacity() {
    let mut pool = PermitPool::new(2);
    assert!(pool.try_acquire());
    assert!(pool.try_acquire());
    assert!(!pool.try_acquire());
    pool.release();
    assert!(pool.try_acquire());
}

#[test]
fn select_due_filters_and_orders_oldest_first() {
    let now: i64 = 10_000;
    let feeds = vec![
        feed(1, FeedStatus::Active, 1, 9_000),   // due, waited a while
        feed(2, FeedStatus::Active, 1, 9_990),   // not due: 9990 + 60 >= 10000
        feed(3, FeedStatus::Inactive, 1, 0),     // inactive
        feed(4, FeedStatus::Active, 1, 100),     // due, waited longest
        feed(5, FeedStatus::Active, 1, 5_000),   // due
    ];
    let due = select_due(&feeds, now);
    let ids: Vec<u128> = due.iter().map(|f| f.id).collect();
    assert_eq!(ids, vec![4, 5, 1]);
}

#[test]
fn select_due_empty_means_noop_tick() {
    let feeds = vec![feed(1, FeedStatus::Active, 60, 10_000)];
    let due = select_due(&feeds, 10_100);
    assert!(due.is_empty());
}

#[test]
fn touch_stamps_before_fetch() {
    let mut f = feed(1, FeedStatus::Active, 1, 0);
    f.touch(4242);
    assert_eq!(f.last_checked_at, 4242);
    assert_eq!(f.name, "feed 1");
}

#[test]
fn startup_guard_fires_once() {
    let mut guard = fmby::scheduler::StartupGuard::new();
    assert!(guard.try_begin());
    assert!(!guard.try_begin());
    assert!(!guard.try_begin());
}
