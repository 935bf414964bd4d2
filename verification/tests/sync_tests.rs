use rss_indexer::multi::{
    CvarLock, ThreadCount, MAX_THREADS_FEEDS, MAX_THREADS_SITES, MAX_THREADS_TOTAL,
};
use rss_indexer::threadpool::ThreadPool;

#[test]
fn cvar_lock_holds_its_data() {
    let lock = CvarLock::new(7u32);
    assert_eq!(*lock.lock(), 7);
    let mut lock = lock;
    *lock.lock_mut() = 9;
    assert_eq!(*lock.lock(), 9);
}

#[test]
fn gate_feed_ceiling_is_respected() {
    let mut tc = ThreadCount::new();
    for _ in 0..MAX_THREADS_FEEDS {
        assert!(tc.try_admit_feed());
    }
    assert_eq!(tc.feeds_now(), MAX_THREADS_FEEDS);
    assert_eq!(tc.total_now(), MAX_THREADS_FEEDS);
    // The feed ceiling is reached: the next feed task must wait.
    assert!(!tc.try_admit_feed());
    assert_eq!(tc.feeds_now(), MAX_THREADS_FEEDS);
    tc.release_feed();
    assert_eq!(tc.feeds_now(), MAX_THREADS_FEEDS - 1);
    assert!(tc.try_admit_feed());
}

#[test]
fn gate_site_and_total_ceilings_are_respected() {
    let mut tc = ThreadCount::new();
    let site_a = String::from("a");
    let site_b = String::from("b");
    for _ in 0..MAX_THREADS_SITES {
        assert!(tc.try_admit_article(&site_a));
    }
    // Site a is full; site b still has room under the total ceiling.
    assert!(!tc.try_admit_article(&site_a));
    assert_eq!(tc.site_now(&site_a), MAX_THREADS_SITES);
    assert_eq!(tc.total_now(), MAX_THREADS_SITES);
    let rest = MAX_THREADS_TOTAL - MAX_THREADS_SITES;
    for _ in 0..rest {
        assert!(tc.try_admit_article(&site_b));
    }
    // The total ceiling is reached: even a fresh site must wait.
    assert_eq!(tc.total_now(), MAX_THREADS_TOTAL);
    assert!(!tc.try_admit_article(&String::from("c")));
    assert!(!tc.try_admit_feed());
    // A finished task always gives its slots back, letting a waiter in.
    tc.release_article(&site_a);
    assert_eq!(tc.site_now(&site_a), MAX_THREADS_SITES - 1);
    assert_eq!(tc.total_now(), MAX_THREADS_TOTAL - 1);
    assert!(tc.try_admit_article(&String::from("c")));
    assert_eq!(tc.site_now(&String::from("c")), 1);
    assert_eq!(tc.site_now(&site_b), rest);
}

#[test]
fn gate_counters_start_at_zero() {
    let tc = ThreadCount::new();
    assert_eq!(tc.total_now(), 0);
    assert_eq!(tc.feeds_now(), 0);
    assert_eq!(tc.site_now(&String::from("anywhere")), 0);
}

#[test]
fn pool_hands_jobs_out_in_submission_order() {
    let mut pool: ThreadPool<u32> = ThreadPool::new(3);
    pool.execute(1);
    pool.execute(2);
    pool.execute(3);
    assert_eq!(pool.next_job(), Some(1));
    assert_eq!(pool.next_job(), Some(2));
    pool.execute(4);
    assert_eq!(pool.next_job(), Some(3));
    assert_eq!(pool.next_job(), Some(4));
    assert_eq!(pool.next_job(), None);
}

#[test]
fn pool_shutdown_drains_every_submitted_job() {
    // After shutdown, every previously submitted job has been handed to a
    // worker: the ones taken before plus the drained rest are exactly the
    // submissions, in order.
    let mut pool: ThreadPool<u32> = ThreadPool::new(2);
    for job in [10, 20, 30, 40] {
        pool.execute(job);
    }
    let mut completed: Vec<u32> = Vec::new();
    completed.push(pool.next_job().unwrap());
    let drained = pool.shutdown();
    completed.extend(drained);
    assert_eq!(completed, vec![10, 20, 30, 40]);
}

#[test]
fn pool_shutdown_with_empty_queue() {
    let mut pool: ThreadPool<u32> = ThreadPool::new(2);
    pool.execute(5);
    assert_eq!(pool.next_job(), Some(5));
    let drained = pool.shutdown();
    assert!(drained.is_empty());
}

#[test]
fn independent_pools_do_not_share_queues() {
    let mut feeds: ThreadPool<u32> = ThreadPool::new(1);
    let mut articles: ThreadPool<u32> = ThreadPool::new(4);
    feeds.execute(1);
    articles.execute(100);
    assert_eq!(feeds.next_job(), Some(1));
    assert_eq!(feeds.next_job(), None);
    assert_eq!(articles.next_job(), Some(100));
}
