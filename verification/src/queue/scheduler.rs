//! The front door for producers: create jobs and withdraw them.

use vstd::prelude::*;
use super::error::StoreUnavailable;
use super::store::JobStore;

verus! {

/// Creates a pending job in partition `queue_name` and returns its id. The
/// job is due at `scheduled_at`, or at once if none is given, and is tried
/// at most `max_attempts` times.
///
/// Fails only when the store can take no further job; the store is then
/// unchanged.
pub fn enqueue(
    store: &mut JobStore,
    queue_name: &str,
    payload: Vec<u8>,
    scheduled_at: Option<u64>,
    max_attempts: u32,
    now: u64,
) -> (r: Result<u64, StoreUnavailable>)
    requires
        old(store)@.wf(),
    ensures
        match r {
            Ok(id) => {
                &&& !old(store)@.full()
                &&& id == old(store)@.next_id
                &&& final(store)@ == old(store)@.enqueued(
                    queue_name@,
                    payload@,
                    scheduled_at,
                    max_attempts,
                    now,
                )
            },
            Err(_) => old(store)@.full() && final(store)@ == old(store)@,
        },
        final(store)@.wf(),
{
    match store.enqueue(queue_name, payload, scheduled_at, max_attempts, now) {
        Ok(job) => Ok(job.id),
        Err(e) => Err(e),
    }
}

/// Withdraws a job. A pending job will never run. A job that a worker holds
/// cannot be stopped from here: it loses its lease, the worker sees on its
/// next look that the job is cancelled, and whatever it reports is refused.
///
/// Returns whether the job was withdrawn by this call: `false` when it is
/// already in a terminal state or unknown, and the store is then unchanged.
pub fn cancel(store: &mut JobStore, job_id: u64) -> (withdrawn: bool)
    requires
        old(store)@.wf(),
    ensures
        withdrawn == old(store)@.live(job_id),
        final(store)@ == old(store)@.with_cancelled(job_id),
        !final(store)@.live(job_id),
        final(store)@.wf(),
{
    let withdrawn = store.cancel(job_id);
    proof {
        let before = old(store)@;
        let after = store@;
        assert forall|i: int| 0 <= i < after.jobs.len() && (#[trigger] after.jobs[i]).id
            == job_id implies after.jobs[i].status.terminal() by {
            assert(before.jobs[i].id == job_id);
        }
    }
    withdrawn
}

/// Whether the job was withdrawn. A worker that runs a long job looks here
/// from time to time and stops when the answer is yes.
pub fn is_cancelled(store: &JobStore, job_id: u64) -> (r: bool)
    requires
        store@.wf(),
    ensures
        r == (store@.lookup(job_id) is Some && store@.lookup(job_id)->0.status
            == super::job::JobStatus::Cancelled),
{
    match store.get(job_id) {
        Some(job) => match job.status {
            super::job::JobStatus::Cancelled => true,
            _ => false,
        },
        None => false,
    }
}

} // verus!
