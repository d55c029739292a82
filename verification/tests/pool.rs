use echo_pool::pool::PoolError;
use echo_pool::pool::ThreadPool;

#[test]
fn zero_size_pool_is_refused() {
    let r = ThreadPool::new(0);
    assert!(matches!(r, Err(PoolError::ZeroSize)));
}

#[test]
fn new_pool_is_idle_and_empty() {
    let pool = ThreadPool::new(5).unwrap();
    assert_eq!(pool.worker_count(), 5);
    assert_eq!(pool.pending_count(), 0);
    assert_eq!(pool.submitted_count(), 0);
    for w in 0..5 {
        assert!(pool.is_idle(w));
        assert_eq!(pool.current_job(w), None);
    }
}

#[test]
fn dequeue_on_an_empty_queue_claims_nothing() {
    let mut pool = ThreadPool::new(1).unwrap();
    assert_eq!(pool.dequeue(0), None);
    assert!(pool.is_idle(0));
    assert_eq!(pool.pending_count(), 0);
}

#[test]
fn jobs_are_delivered_in_submission_order() {
    let mut pool = ThreadPool::new(1).unwrap();
    let first = pool.execute();
    let second = pool.execute();
    assert_eq!(pool.dequeue(0), Some(first));
    pool.complete(0);
    assert_eq!(pool.dequeue(0), Some(second));
}

#[test]
fn saturated_pool_queues_the_extra_job() {
    let mut pool = ThreadPool::new(2).unwrap();
    let first = pool.execute();
    let second = pool.execute();
    let extra = pool.execute();

    assert_eq!(pool.dequeue(0), Some(first));
    assert_eq!(pool.dequeue(1), Some(second));

    // Both workers are tied up; the extra job stays queued and unexecuted.
    assert!(!pool.is_idle(0));
    assert!(!pool.is_idle(1));
    assert_eq!(pool.pending_count(), 1);
    assert_eq!(pool.current_job(0), Some(first));
    assert_eq!(pool.current_job(1), Some(second));

    // Once one worker releases its slot, the extra job is picked up.
    pool.complete(0);
    assert!(pool.is_idle(0));
    assert_eq!(pool.dequeue(0), Some(extra));
    assert_eq!(pool.current_job(0), Some(extra));
    assert_eq!(pool.pending_count(), 0);
}

#[test]
fn completion_frees_the_worker_for_the_next_job() {
    let mut pool = ThreadPool::new(1).unwrap();
    let first = pool.execute();
    let second = pool.execute();
    assert_eq!(pool.dequeue(0), Some(first));
    assert!(!pool.is_idle(0));
    pool.complete(0);
    assert!(pool.is_idle(0));
    assert_eq!(pool.dequeue(0), Some(second));
}
