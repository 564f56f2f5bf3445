use mas_core::queue::scheduler;
use mas_core::queue::{
    BackoffPolicy, Job, JobStatus, JobStore, LeaseLost, QueueError, StoreUnavailable, UnknownWorker,
};

fn policy() -> BackoffPolicy {
    BackoffPolicy { base_delay: 10, max_delay: 100, max_jitter: 0 }
}

fn ids(jobs: &[Job]) -> Vec<u64> {
    jobs.iter().map(|j| j.id).collect()
}

#[test]
fn enqueue_creates_a_pending_job() {
    let mut store = JobStore::new(policy());
    let job = store.enqueue("email", vec![1, 2, 3], None, 5, 42).unwrap();
    assert_eq!(job.id, 0);
    assert_eq!(job.queue_name, "email");
    assert_eq!(job.payload, vec![1, 2, 3]);
    assert_eq!(job.status, JobStatus::Pending);
    assert_eq!(job.scheduled_at, 42);
    assert_eq!(job.attempts, 0);
    assert_eq!(job.max_attempts, 5);
    assert_eq!(job.lease_owner, None);
    assert_eq!(job.lease_expires_at, None);
    assert_eq!(job.last_error, None);
    assert_eq!(job.created_at, 42);
    assert_eq!(job.completed_at, None);
    assert_eq!(store.len(), 1);
    assert_eq!(store.get(0), Some(job));
    assert_eq!(store.get(1), None);
}

#[test]
fn enqueue_gives_growing_ids_and_keeps_the_schedule() {
    let mut store = JobStore::new(policy());
    let a = store.enqueue("email", vec![], Some(100), 1, 7).unwrap();
    let b = store.enqueue("maintenance", vec![], None, 1, 8).unwrap();
    assert_eq!((a.id, a.scheduled_at, a.created_at), (0, 100, 7));
    assert_eq!((b.id, b.scheduled_at, b.created_at), (1, 8, 8));
}

#[test]
fn deferred_job_is_not_claimed_before_it_is_due() {
    let mut store = JobStore::new(policy());
    store.enqueue("email", vec![], Some(100), 3, 0).unwrap();
    assert!(store.claim("email", 1, 10, 5, 99).is_empty());
    assert_eq!(ids(&store.claim("email", 1, 10, 5, 100)), vec![0]);
}

#[test]
fn claim_leases_the_job_to_the_worker() {
    let mut store = JobStore::new(policy());
    store.enqueue("email", vec![9], None, 3, 0).unwrap();
    let claimed = store.claim("email", 77, 1, 30, 1000);
    assert_eq!(claimed.len(), 1);
    let job = &claimed[0];
    assert_eq!(job.status, JobStatus::Leased);
    assert_eq!(job.lease_owner, Some(77));
    assert_eq!(job.lease_expires_at, Some(1030));
    assert_eq!(job.attempts, 1);
    assert_eq!(job.payload, vec![9]);
    assert_eq!(store.get(0).as_ref(), Some(job));
    assert!(store.has_lease_of(77));
    assert!(!store.has_lease_of(78));
}

#[test]
fn claim_saturates_the_end_of_the_lease() {
    let mut store = JobStore::new(policy());
    store.enqueue("email", vec![], None, 3, 0).unwrap();
    let claimed = store.claim("email", 1, 1, u64::MAX, 5);
    assert_eq!(claimed[0].lease_expires_at, Some(u64::MAX));
}

#[test]
fn fifo_within_partition() {
    let mut store = JobStore::new(policy());
    let b = store.enqueue("email", vec![], Some(20), 3, 0).unwrap();
    let a = store.enqueue("email", vec![], Some(10), 3, 0).unwrap();
    let first = store.claim("email", 1, 1, 5, 30);
    assert_eq!(ids(&first), vec![a.id]);
    let second = store.claim("email", 1, 1, 5, 30);
    assert_eq!(ids(&second), vec![b.id]);
}

#[test]
fn claim_orders_by_schedule_then_id() {
    let mut store = JobStore::new(policy());
    store.enqueue("q", vec![], Some(5), 3, 0).unwrap();
    store.enqueue("q", vec![], Some(3), 3, 0).unwrap();
    store.enqueue("q", vec![], Some(5), 3, 0).unwrap();
    store.enqueue("q", vec![], Some(3), 3, 0).unwrap();
    store.enqueue("q", vec![], Some(50), 3, 0).unwrap();
    let claimed = store.claim("q", 1, 10, 5, 10);
    assert_eq!(ids(&claimed), vec![1, 3, 0, 2]);
    assert_eq!(store.get(4).unwrap().status, JobStatus::Pending);
}

#[test]
fn claim_takes_no_more_than_the_batch() {
    let mut store = JobStore::new(policy());
    for _ in 0..5 {
        store.enqueue("q", vec![], None, 3, 0).unwrap();
    }
    assert_eq!(ids(&store.claim("q", 1, 2, 100, 1)), vec![0, 1]);
    assert_eq!(ids(&store.claim("q", 2, 2, 100, 1)), vec![2, 3]);
    assert_eq!(ids(&store.claim("q", 3, 2, 100, 1)), vec![4]);
    assert!(store.claim("q", 4, 2, 100, 1).is_empty());
}

#[test]
fn claim_stays_within_its_partition() {
    let mut store = JobStore::new(policy());
    store.enqueue("email", vec![], None, 3, 0).unwrap();
    store.enqueue("maintenance", vec![], None, 3, 0).unwrap();
    assert_eq!(ids(&store.claim("maintenance", 1, 10, 5, 1)), vec![1]);
    assert!(store.claim("reports", 1, 10, 5, 1).is_empty());
    assert_eq!(store.get(0).unwrap().status, JobStatus::Pending);
}

#[test]
fn empty_claim_changes_nothing() {
    let mut store = JobStore::new(policy());
    assert!(store.claim("email", 1, 10, 5, 0).is_empty());
    assert_eq!(store.len(), 0);

    store.enqueue("email", vec![], Some(100), 3, 0).unwrap();
    store.enqueue("email", vec![], None, 3, 0).unwrap();
    store.claim("email", 1, 1, 50, 10);
    let before = (store.get(0), store.get(1));
    assert!(store.claim("email", 2, 10, 5, 20).is_empty());
    assert!(store.claim("email", 2, 0, 5, 1000).is_empty());
    assert_eq!((store.get(0), store.get(1)), before);
}

#[test]
fn running_lease_is_not_taken() {
    let mut store = JobStore::new(policy());
    store.enqueue("q", vec![], None, 3, 0).unwrap();
    store.claim("q", 1, 1, 5, 100);
    for now in 100..=105 {
        assert!(store.claim("q", 2, 1, 5, now).is_empty());
        assert_eq!(store.acquire(0, 2, 5, now), None);
    }
    assert_eq!(store.get(0).unwrap().lease_owner, Some(1));
    assert_eq!(store.get(0).unwrap().attempts, 1);
}

#[test]
fn lease_reclaim_after_expiry() {
    let mut store = JobStore::new(policy());
    let y = store.enqueue("q", vec![], None, 3, 0).unwrap();
    assert_eq!(ids(&store.claim("q", 1, 1, 5, 100)), vec![y.id]);
    // the lease ends at 105: not yet abandoned at 105, abandoned from 106 on
    assert!(store.claim("q", 2, 1, 5, 105).is_empty());
    let again = store.claim("q", 2, 1, 5, 106);
    assert_eq!(ids(&again), vec![y.id]);
    assert_eq!(again[0].lease_owner, Some(2));
    assert_eq!(again[0].lease_expires_at, Some(111));
    assert_eq!(again[0].attempts, 2);
    assert_eq!(store.complete(y.id, 1, 107), Err(LeaseLost));
    assert_eq!(store.get(y.id).unwrap().status, JobStatus::Leased);
    assert_eq!(store.complete(y.id, 2, 108), Ok(()));
    let done = store.get(y.id).unwrap();
    assert_eq!(done.status, JobStatus::Completed);
    assert_eq!(done.completed_at, Some(108));
    assert_eq!(done.lease_owner, None);
    assert_eq!(done.lease_expires_at, None);
}

#[test]
fn three_failures_dead_letter_the_job() {
    let mut store = JobStore::new(BackoffPolicy { base_delay: 0, max_delay: 0, max_jitter: 0 });
    let x = store.enqueue("q", vec![], None, 3, 0).unwrap();
    for round in 1..=3u32 {
        let claimed = store.claim("q", 1, 1, 5, 10);
        assert_eq!(ids(&claimed), vec![x.id]);
        assert_eq!(claimed[0].attempts, round);
        assert_eq!(store.fail(x.id, 1, "boom", 10, 0), Ok(()));
        let job = store.get(x.id).unwrap();
        if round < 3 {
            assert_eq!(job.status, JobStatus::Pending);
        } else {
            assert_eq!(job.status, JobStatus::DeadLettered);
        }
        assert_eq!(job.attempts, round);
        assert_eq!(job.last_error, Some("boom".to_string()));
        assert_eq!(job.lease_owner, None);
    }
    let job = store.get(x.id).unwrap();
    assert_eq!(job.status, JobStatus::DeadLettered);
    assert_eq!(job.attempts, 3);
    assert!(store.claim("q", 1, 1, 5, 1_000_000).is_empty());
    assert_eq!(store.fail(x.id, 1, "again", 11, 0), Err(LeaseLost));
}

#[test]
fn failed_job_comes_back_after_the_backoff() {
    let mut store = JobStore::new(BackoffPolicy { base_delay: 10, max_delay: 35, max_jitter: 4 });
    store.enqueue("q", vec![], None, 10, 0).unwrap();

    store.claim("q", 1, 1, 5, 100);
    store.fail(0, 1, "e1", 101, 7).unwrap();
    // first failure: 10, jitter 7 % 5 = 2
    assert_eq!(store.get(0).unwrap().scheduled_at, 101 + 10 + 2);
    assert!(store.claim("q", 1, 1, 5, 112).is_empty());

    store.claim("q", 1, 1, 5, 113);
    store.fail(0, 1, "e2", 120, 5).unwrap();
    // second failure: 20, jitter 5 % 5 = 0
    assert_eq!(store.get(0).unwrap().scheduled_at, 120 + 20);

    store.claim("q", 1, 1, 5, 140);
    store.fail(0, 1, "e3", 141, 4).unwrap();
    // third failure: 40 capped at 35, jitter 4
    assert_eq!(store.get(0).unwrap().scheduled_at, 141 + 35 + 4);
    assert_eq!(store.get(0).unwrap().last_error, Some("e3".to_string()));
}

#[test]
fn job_without_attempts_is_dead_lettered_by_its_first_failure() {
    let mut store = JobStore::new(policy());
    store.enqueue("q", vec![], None, 0, 0).unwrap();
    store.claim("q", 1, 1, 5, 0);
    store.fail(0, 1, "no", 1, 0).unwrap();
    let job = store.get(0).unwrap();
    assert_eq!(job.status, JobStatus::DeadLettered);
    assert_eq!(job.attempts, 1);
}

#[test]
fn abandoned_attempts_count() {
    let mut store = JobStore::new(policy());
    store.enqueue("q", vec![], None, 2, 0).unwrap();
    store.claim("q", 1, 1, 5, 0);
    store.claim("q", 2, 1, 5, 10);
    store.claim("q", 3, 1, 5, 20);
    assert_eq!(store.get(0).unwrap().attempts, 3);
    store.fail(0, 3, "late", 21, 0).unwrap();
    assert_eq!(store.get(0).unwrap().status, JobStatus::DeadLettered);
}

#[test]
fn cancelled_pending_job_is_never_claimed() {
    let mut store = JobStore::new(policy());
    store.enqueue("q", vec![], None, 3, 0).unwrap();
    store.enqueue("q", vec![], None, 3, 0).unwrap();
    assert!(store.cancel(0));
    assert_eq!(store.get(0).unwrap().status, JobStatus::Cancelled);
    assert_eq!(ids(&store.claim("q", 1, 10, 5, 100)), vec![1]);
    assert!(!ids(&store.claim("q", 2, 10, 5, u64::MAX)).contains(&0));
    assert_eq!(store.acquire(0, 1, 5, 100), None);
    assert_eq!(store.get(0).unwrap().status, JobStatus::Cancelled);
}

#[test]
fn cancel_is_refused_for_terminal_and_unknown_jobs() {
    let mut store = JobStore::new(policy());
    store.enqueue("q", vec![], None, 3, 0).unwrap();
    assert!(!store.cancel(5));
    assert!(store.cancel(0));
    assert!(!store.cancel(0));

    store.enqueue("q", vec![], None, 3, 0).unwrap();
    store.claim("q", 1, 1, 5, 0);
    store.complete(1, 1, 1).unwrap();
    let before = store.get(1);
    assert!(!store.cancel(1));
    assert_eq!(store.get(1), before);
}

#[test]
fn cancel_of_a_leased_job_ends_the_lease() {
    let mut store = JobStore::new(policy());
    store.enqueue("q", vec![], None, 3, 0).unwrap();
    store.claim("q", 1, 1, 50, 0);
    assert!(store.cancel(0));
    let job = store.get(0).unwrap();
    assert_eq!(job.status, JobStatus::Cancelled);
    assert_eq!(job.lease_owner, None);
    assert_eq!(job.lease_expires_at, None);
    assert_eq!(store.complete(0, 1, 1), Err(LeaseLost));
    assert_eq!(store.fail(0, 1, "x", 1, 0), Err(LeaseLost));
    assert_eq!(store.renew(0, 1, 10), Err(LeaseLost));
    assert_eq!(store.get(0).unwrap().status, JobStatus::Cancelled);
}

#[test]
fn complete_needs_the_lease() {
    let mut store = JobStore::new(policy());
    store.enqueue("q", vec![], None, 3, 0).unwrap();
    assert_eq!(store.complete(0, 1, 0), Err(LeaseLost));
    assert_eq!(store.complete(9, 1, 0), Err(LeaseLost));
    store.claim("q", 1, 1, 5, 0);
    assert_eq!(store.complete(0, 2, 1), Err(LeaseLost));
    assert_eq!(store.complete(0, 1, 1), Ok(()));
    assert_eq!(store.complete(0, 1, 2), Err(LeaseLost));
    assert_eq!(store.get(0).unwrap().completed_at, Some(1));
}

#[test]
fn renew_extends_the_lease_from_its_end() {
    let mut store = JobStore::new(policy());
    store.enqueue("q", vec![], None, 3, 0).unwrap();
    store.claim("q", 1, 1, 5, 100);
    assert_eq!(store.renew(0, 2, 10), Err(LeaseLost));
    assert_eq!(store.get(0).unwrap().lease_expires_at, Some(105));
    assert_eq!(store.renew(0, 1, 10), Ok(()));
    let job = store.get(0).unwrap();
    assert_eq!(job.lease_expires_at, Some(115));
    assert_eq!(job.attempts, 1);
    assert!(store.claim("q", 2, 1, 5, 115).is_empty());
    assert_eq!(store.claim("q", 2, 1, 5, 116).len(), 1);
    assert_eq!(store.renew(0, 1, 10), Err(LeaseLost));
    assert_eq!(store.renew(0, 2, u64::MAX), Ok(()));
    assert_eq!(store.get(0).unwrap().lease_expires_at, Some(u64::MAX));
}

#[test]
fn dead_letter_is_immediate() {
    let mut store = JobStore::new(policy());
    store.enqueue("q", vec![], None, 5, 0).unwrap();
    assert_eq!(store.dead_letter(0, 1, "fatal"), Err(LeaseLost));
    store.claim("q", 1, 1, 5, 0);
    assert_eq!(store.dead_letter(0, 2, "fatal"), Err(LeaseLost));
    assert_eq!(store.dead_letter(0, 1, "fatal"), Ok(()));
    let job = store.get(0).unwrap();
    assert_eq!(job.status, JobStatus::DeadLettered);
    assert_eq!(job.attempts, 1);
    assert_eq!(job.last_error, Some("fatal".to_string()));
    assert_eq!(job.lease_owner, None);
    assert!(store.claim("q", 1, 1, 5, 100).is_empty());
}

#[test]
fn acquire_is_an_exclusive_lock() {
    let mut store = JobStore::new(policy());
    let lock = store.enqueue("singleton", vec![], None, 1, 0).unwrap().id;
    let held = store.acquire(lock, 1, 60, 0).unwrap();
    assert_eq!(held.lease_owner, Some(1));
    assert_eq!(held.lease_expires_at, Some(60));
    assert_eq!(store.acquire(lock, 2, 60, 30), None);
    assert_eq!(store.acquire(lock, 1, 60, 60), None);
    let next = store.acquire(lock, 2, 60, 61).unwrap();
    assert_eq!(next.lease_owner, Some(2));
    assert_eq!(next.lease_expires_at, Some(121));
    assert_eq!(store.acquire(99, 2, 60, 61), None);
}

#[test]
fn status_knows_what_is_terminal() {
    assert!(!JobStatus::Pending.is_terminal());
    assert!(!JobStatus::Leased.is_terminal());
    assert!(!JobStatus::Failed.is_terminal());
    assert!(JobStatus::Completed.is_terminal());
    assert!(JobStatus::DeadLettered.is_terminal());
    assert!(JobStatus::Cancelled.is_terminal());
}

#[test]
fn backoff_doubles_up_to_the_cap() {
    let p = BackoffPolicy { base_delay: 3, max_delay: 20, max_jitter: 9 };
    assert_eq!(p.delay_for(0), 3);
    assert_eq!(p.delay_for(1), 3);
    assert_eq!(p.delay_for(2), 6);
    assert_eq!(p.delay_for(3), 12);
    assert_eq!(p.delay_for(4), 20);
    assert_eq!(p.delay_for(5), 20);
    assert_eq!(p.delay_for(u32::MAX), 20);
    assert_eq!(p.jitter_for(0), 0);
    assert_eq!(p.jitter_for(9), 9);
    assert_eq!(p.jitter_for(10), 0);
    assert_eq!(p.jitter_for(25), 5);
    assert_eq!(p.next_attempt_at(3, 1000, 25), 1000 + 12 + 5);
    assert_eq!(p.next_attempt_at(3, u64::MAX - 4, 25), u64::MAX);
}

#[test]
fn backoff_at_the_limits() {
    let zero = BackoffPolicy { base_delay: 0, max_delay: 50, max_jitter: 0 };
    assert_eq!(zero.delay_for(u32::MAX), 0);
    let huge = BackoffPolicy { base_delay: 1, max_delay: u64::MAX, max_jitter: u64::MAX };
    assert_eq!(huge.delay_for(64), 1u64 << 63);
    assert_eq!(huge.delay_for(65), u64::MAX);
    assert_eq!(huge.jitter_for(u64::MAX), u64::MAX);
    let over = BackoffPolicy { base_delay: 70, max_delay: 50, max_jitter: 0 };
    assert_eq!(over.delay_for(1), 50);
}

#[test]
fn store_that_ran_out_of_ids_is_unavailable() {
    let mut store = JobStore::starting_at(policy(), u64::MAX - 1);
    assert_eq!(store.enqueue("q", vec![], None, 1, 0).unwrap().id, u64::MAX - 1);
    assert_eq!(store.enqueue("q", vec![], None, 1, 0), Err(StoreUnavailable));
    assert_eq!(store.len(), 1);
    assert_eq!(scheduler::enqueue(&mut store, "q", vec![], None, 1, 0), Err(StoreUnavailable));
}

#[test]
fn scheduler_enqueues_and_cancels() {
    let mut store = JobStore::new(policy());
    let first = scheduler::enqueue(&mut store, "email", vec![1], None, 3, 10).unwrap();
    let second = scheduler::enqueue(&mut store, "email", vec![2], Some(50), 3, 10).unwrap();
    assert_eq!((first, second), (0, 1));
    assert_eq!(store.get(second).unwrap().scheduled_at, 50);
    assert!(!scheduler::is_cancelled(&store, first));
    assert!(scheduler::cancel(&mut store, first));
    assert!(scheduler::is_cancelled(&store, first));
    assert!(!scheduler::cancel(&mut store, first));
    assert!(!scheduler::cancel(&mut store, 17));
    assert!(!scheduler::is_cancelled(&store, 17));
    assert_eq!(ids(&store.claim("email", 1, 10, 5, 100)), vec![second]);
}

#[test]
fn errors_convert_and_describe_themselves() {
    assert_eq!(QueueError::from(LeaseLost), QueueError::LeaseLost);
    assert_eq!(QueueError::from(UnknownWorker), QueueError::UnknownWorker);
    assert_eq!(QueueError::from(StoreUnavailable), QueueError::StoreUnavailable);
    assert!(QueueError::StoreUnavailable.is_transient());
    assert!(!QueueError::LeaseLost.is_transient());
    assert!(!QueueError::UnknownWorker.is_transient());
    assert_eq!(QueueError::LeaseLost.message(), "lease lost");
    assert_eq!(QueueError::UnknownWorker.message(), "unknown worker");
    assert_eq!(QueueError::StoreUnavailable.message(), "store unavailable");
}

#[test]
fn no_job_is_lost() {
    let mut store = JobStore::new(policy());
    for i in 0..6u8 {
        store.enqueue(if i % 2 == 0 { "even" } else { "odd" }, vec![i], Some(i as u64), 2, 0).unwrap();
    }
    store.claim("even", 1, 2, 10, 5);
    store.complete(0, 1, 6).unwrap();
    store.fail(2, 1, "e", 6, 3).unwrap();
    store.cancel(1);
    store.claim("odd", 2, 5, 10, 7);
    store.dead_letter(3, 2, "fatal").unwrap();
    store.renew(5, 2, 100).unwrap();
    store.claim("even", 3, 5, 10, 1000);
    store.fail(2, 3, "e", 1001, 0).unwrap();
    assert_eq!(store.len(), 6);
    for i in 0..6u64 {
        let job = store.get(i).unwrap();
        assert_eq!(job.id, i);
        assert_eq!(job.payload, vec![i as u8]);
        assert_eq!(job.queue_name, if i % 2 == 0 { "even" } else { "odd" });
        assert_eq!(job.max_attempts, 2);
        assert_eq!(job.created_at, 0);
    }
    let statuses: Vec<JobStatus> = (0..6).map(|i| store.get(i).unwrap().status).collect();
    assert_eq!(
        statuses,
        vec![
            JobStatus::Completed,
            JobStatus::Cancelled,
            JobStatus::DeadLettered,
            JobStatus::DeadLettered,
            JobStatus::Leased,
            JobStatus::Leased,
        ]
    );
    // the two live jobs come back once their leases have run out
    assert_eq!(ids(&store.claim("even", 9, 5, 10, 1011)), vec![4]);
    assert_eq!(ids(&store.claim("odd", 9, 5, 10, 117)), Vec::<u64>::new());
    assert_eq!(ids(&store.claim("odd", 9, 5, 10, 118)), vec![5]);
}

#[test]
fn snapshot_and_restore_give_the_same_store() {
    let mut store = JobStore::new(policy());
    store.enqueue("a", vec![1], None, 3, 0).unwrap();
    store.enqueue("b", vec![2], Some(9), 3, 1).unwrap();
    store.enqueue("a", vec![3], None, 3, 2).unwrap();
    store.claim("a", 4, 1, 10, 5);
    store.cancel(1);
    let jobs = store.snapshot();
    assert_eq!(ids(&jobs), vec![0, 1, 2]);
    assert_eq!(jobs[0].lease_owner, Some(4));
    assert_eq!(jobs[1].status, JobStatus::Cancelled);
    assert_eq!(store.next_id(), 3);

    let mut again = JobStore::restore(store.backoff(), jobs.clone(), store.next_id()).unwrap();
    assert_eq!(again.snapshot(), jobs);
    assert_eq!(again.backoff(), policy());
    assert_eq!(again.enqueue("a", vec![], None, 1, 0).unwrap().id, 3);
    assert_eq!(again.complete(0, 4, 6), Ok(()));
}

#[test]
fn restore_refuses_what_is_no_store() {
    let mut store = JobStore::new(policy());
    store.enqueue("a", vec![], None, 3, 0).unwrap();
    store.enqueue("a", vec![], None, 3, 0).unwrap();
    store.claim("a", 1, 1, 10, 0);
    let good = store.snapshot();
    assert!(JobStore::restore(policy(), good.clone(), 2).is_some());
    assert!(JobStore::restore(policy(), good.clone(), u64::MAX).is_some());
    assert!(JobStore::restore(policy(), Vec::new(), 0).is_some());

    // an id that is not below the next id
    assert!(JobStore::restore(policy(), good.clone(), 1).is_none());
    // ids out of order, or twice
    let mut swapped = good.clone();
    swapped.swap(0, 1);
    assert!(JobStore::restore(policy(), swapped, 2).is_none());
    let mut twice = good.clone();
    twice[1].id = 0;
    assert!(JobStore::restore(policy(), twice, 2).is_none());
    // a lease without an owner, an owner without a lease
    let mut ownerless = good.clone();
    ownerless[0].lease_owner = None;
    assert!(JobStore::restore(policy(), ownerless, 2).is_none());
    let mut endless = good.clone();
    endless[0].lease_expires_at = None;
    assert!(JobStore::restore(policy(), endless, 2).is_none());
    let mut owned = good.clone();
    owned[1].lease_owner = Some(1);
    assert!(JobStore::restore(policy(), owned, 2).is_none());
    // completion without its time, and a job stuck in `Failed`
    let mut undated = good.clone();
    undated[1].status = JobStatus::Completed;
    assert!(JobStore::restore(policy(), undated, 2).is_none());
    let mut stuck = good.clone();
    stuck[1].status = JobStatus::Failed;
    assert!(JobStore::restore(policy(), stuck, 2).is_none());
    assert!(good[0].is_well_formed());
}
