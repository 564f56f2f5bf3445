//! The laws of the queue: what holds of every store, whatever is asked of
//! it.

use vstd::prelude::*;
use super::job::{time_after, JobStatus, JobView};
use super::model::{handed_out, Operation, StoreView};

verus! {

/// Every operation keeps the store well-formed.
pub proof fn lemma_apply_wf(s: StoreView, op: Operation, now: u64)
    requires
        s.wf(),
    ensures
        s.apply(op, now).wf(),
{
    let after = s.apply(op, now);
    match op {
        Operation::Claim { queue, worker, batch, lease_duration } => {
            s.lemma_claimed(queue, worker, batch, lease_duration, now);
        },
        Operation::Enqueue { .. } => {},
        _ => {
            assert(after.jobs.len() == s.jobs.len());
            assert forall|i: int| 0 <= i < s.jobs.len() implies (#[trigger] after.jobs[i]).id
                == s.jobs[i].id && after.jobs[i].wf() by {
                assert(s.jobs[i].wf());
            }
        },
    }
}

/// A job never changes its identity: no operation moves it, drops it, or
/// alters its id, partition, payload, attempt limit or creation time. Nor do
/// the attempts counted for it ever go down.
pub proof fn lemma_job_identity_is_kept(s: StoreView, op: Operation, now: u64, i: int)
    requires
        s.wf(),
        0 <= i < s.jobs.len(),
    ensures
        s.jobs.len() <= s.apply(op, now).jobs.len(),
        s.apply(op, now).jobs[i].id == s.jobs[i].id,
        s.apply(op, now).jobs[i].queue_name == s.jobs[i].queue_name,
        s.apply(op, now).jobs[i].payload == s.jobs[i].payload,
        s.apply(op, now).jobs[i].max_attempts == s.jobs[i].max_attempts,
        s.apply(op, now).jobs[i].created_at == s.jobs[i].created_at,
        s.apply(op, now).jobs[i].attempts >= s.jobs[i].attempts,
{
    match op {
        Operation::Claim { queue, worker, batch, lease_duration } => {
            s.lemma_claimed(queue, worker, batch, lease_duration, now);
        },
        _ => {},
    }
}

/// A job in a terminal state stays exactly as it is under every operation.
pub proof fn lemma_terminal_is_final(s: StoreView, op: Operation, now: u64, i: int)
    requires
        s.wf(),
        0 <= i < s.jobs.len(),
        s.jobs[i].status.terminal(),
    ensures
        s.apply(op, now).jobs[i] == s.jobs[i],
{
    match op {
        Operation::Claim { queue, worker, batch, lease_duration } => {
            s.lemma_claimed(queue, worker, batch, lease_duration, now);
        },
        _ => {
            assert(s.jobs[i].wf());
        },
    }
}

/// One operation and the time at which it is carried out.
pub struct Step {
    pub op: Operation,
    pub now: u64,
}

/// The store after a history of operations, carried out in order.
pub open spec fn after_all(s: StoreView, steps: Seq<Step>) -> StoreView
    decreases steps.len(),
{
    if steps.len() == 0 {
        s
    } else {
        after_all(s, steps.drop_last()).apply(steps.last().op, steps.last().now)
    }
}

/// Whatever happens to a store, it stays well-formed, and every job stays
/// at its place with its identity. A job in a terminal state never changes
/// again.
pub proof fn lemma_history(s: StoreView, steps: Seq<Step>, i: int)
    requires
        s.wf(),
        0 <= i < s.jobs.len(),
    ensures
        after_all(s, steps).wf(),
        i < after_all(s, steps).jobs.len(),
        after_all(s, steps).jobs[i].id == s.jobs[i].id,
        after_all(s, steps).jobs[i].queue_name == s.jobs[i].queue_name,
        after_all(s, steps).jobs[i].payload == s.jobs[i].payload,
        after_all(s, steps).jobs[i].max_attempts == s.jobs[i].max_attempts,
        after_all(s, steps).jobs[i].created_at == s.jobs[i].created_at,
        after_all(s, steps).jobs[i].attempts >= s.jobs[i].attempts,
        s.jobs[i].status.terminal() ==> after_all(s, steps).jobs[i] == s.jobs[i],
    decreases steps.len(),
{
    if steps.len() > 0 {
        let before = after_all(s, steps.drop_last());
        lemma_history(s, steps.drop_last(), i);
        lemma_apply_wf(before, steps.last().op, steps.last().now);
        lemma_job_identity_is_kept(before, steps.last().op, steps.last().now, i);
        if s.jobs[i].status.terminal() {
            lemma_terminal_is_final(before, steps.last().op, steps.last().now, i);
        }
    }
}

/// A job that has not reached a terminal state can be claimed: from
/// `claimable_from` on, for as long as it is left alone, it is eligible in
/// its partition at every instant.
pub proof fn lemma_live_job_is_claimable(job: JobView, later: u64)
    requires
        job.wf(),
        !job.status.terminal(),
        later >= job.claimable_from(),
    ensures
        job.eligible(job.queue_name, later),
{
}

/// No job is lost. Whatever happens to a store, a job that was in it is
/// still in it, at its place and under its id, and it has either reached a
/// terminal state or can be claimed again.
pub proof fn lemma_no_job_lost(s: StoreView, steps: Seq<Step>, i: int, later: u64)
    requires
        s.wf(),
        0 <= i < s.jobs.len(),
    ensures
        i < after_all(s, steps).jobs.len(),
        after_all(s, steps).jobs[i].id == s.jobs[i].id,
        ({
            let job = after_all(s, steps).jobs[i];
            job.status.terminal() || (later >= job.claimable_from() ==> job.eligible(
                job.queue_name,
                later,
            ))
        }),
{
    lemma_history(s, steps, i);
    let job = after_all(s, steps).jobs[i];
    assert(job.wf());
}

/// Whether `op` is none of the operations by which the lease of `worker`
/// can end before its time: a report or a renewal by `worker` itself, or the
/// producer's withdrawal of a job.
pub open spec fn leaves_lease_to(op: Operation, worker: u64) -> bool {
    match op {
        Operation::Cancel { .. } => false,
        Operation::Renew { worker: w, .. } => w != worker,
        Operation::Complete { worker: w, .. } => w != worker,
        Operation::Fail { worker: w, .. } => w != worker,
        Operation::DeadLetter { worker: w, .. } => w != worker,
        _ => true,
    }
}

/// A lease protects its job for as long as it runs. If `worker` holds a
/// lease that ends at `end`, then whatever others do up to and including the
/// instant `end`, the job stays exactly as it is: leased to `worker`, and to
/// nobody else.
pub proof fn lemma_lease_outlasts_history(
    s: StoreView,
    steps: Seq<Step>,
    i: int,
    worker: u64,
    end: u64,
)
    requires
        s.wf(),
        0 <= i < s.jobs.len(),
        s.jobs[i].leased_by(worker),
        s.jobs[i].lease_expires_at == Some(end),
        forall|k: int|
            0 <= k < steps.len() ==> (#[trigger] steps[k]).now <= end && leaves_lease_to(
                steps[k].op,
                worker,
            ),
    ensures
        i < after_all(s, steps).jobs.len(),
        after_all(s, steps).jobs[i] == s.jobs[i],
    decreases steps.len(),
{
    if steps.len() > 0 {
        let front = steps.drop_last();
        assert forall|k: int| 0 <= k < front.len() implies (#[trigger] front[k]).now <= end
            && leaves_lease_to(front[k].op, worker) by {
            assert(front[k] == steps[k]);
        }
        lemma_lease_outlasts_history(s, front, i, worker, end);
        lemma_history(s, front, i);
        let before = after_all(s, front);
        let last = steps.last();
        assert(last == steps[steps.len() - 1]);
        assert(before.jobs[i].holds_lease(worker, last.now));
        let other: u64 = if worker == 0 {
            1
        } else {
            0
        };
        lemma_mutual_exclusion(before, last.op, last.now, i, worker, other);
        lemma_history(s, steps, i);
    }
}

/// An abandoned lease is reclaimed by the next claim that has room for the
/// job. Once the lease has run out, a claim on the job's partition hands the
/// job out, unless the batch is filled with jobs that come before it.
pub proof fn lemma_abandoned_lease_is_claimed(
    s: StoreView,
    i: int,
    claimant: u64,
    batch: nat,
    lease_duration: u64,
    now: u64,
)
    requires
        s.wf(),
        0 <= i < s.jobs.len(),
        s.jobs[i].status == JobStatus::Leased,
        s.jobs[i].lease_expires_at is Some,
        s.jobs[i].lease_expires_at->0 < now,
    ensures
        ({
            let (after, out) = s.claimed(
                s.jobs[i].queue_name,
                claimant,
                batch,
                lease_duration,
                now,
            );
            ||| after.jobs[i] == s.jobs[i].leased(claimant, lease_duration, now) && handed_out(
                out,
                s.jobs[i].id,
            )
            ||| out.len() == batch && forall|k: int|
                0 <= k < out.len() ==> (#[trigger] out[k]).precedes(s.jobs[i])
        }),
{
    s.lemma_claimed(s.jobs[i].queue_name, claimant, batch, lease_duration, now);
}

/// A lease has at most one holder, and while it runs no operation gives the
/// job to anyone else.
///
/// If `worker` holds a lease on a job that has not run out at `now`, then
/// after any operation carried out at `now` no other worker holds a lease on
/// that job. The job changes at all only through what `worker` itself
/// reports, or when the producer withdraws it.
pub proof fn lemma_mutual_exclusion(
    s: StoreView,
    op: Operation,
    now: u64,
    i: int,
    worker: u64,
    other: u64,
)
    requires
        s.wf(),
        0 <= i < s.jobs.len(),
        s.jobs[i].holds_lease(worker, now),
        other != worker,
    ensures
        !s.jobs[i].leased_by(other),
        !s.apply(op, now).jobs[i].leased_by(other),
        s.apply(op, now).jobs[i] == s.jobs[i] || op is Cancel || (op is Renew && op->Renew_worker
            == worker) || (op is Complete && op->Complete_worker == worker) || (op is Fail
            && op->Fail_worker == worker) || (op is DeadLetter && op->DeadLetter_worker == worker),
{
    match op {
        Operation::Claim { queue, worker: w, batch, lease_duration } => {
            s.lemma_claimed(queue, w, batch, lease_duration, now);
            assert(!s.jobs[i].eligible(queue, now));
        },
        _ => {},
    }
}

/// An abandoned lease is reclaimed when it has run out, and not before.
///
/// A job leased at `t0` for `d`, and then left alone, can be claimed at
/// `now` exactly if `now` lies past the end of the lease, `t0 + d`.
pub proof fn lemma_lease_reclaim(job: JobView, worker: u64, d: u64, t0: u64, now: u64)
    ensures
        job.leased(worker, d, t0).eligible(job.queue_name, now) <==> now > time_after(t0, d),
        t0 + d <= u64::MAX ==> (job.leased(worker, d, t0).eligible(job.queue_name, now) <==> now
            > t0 + d),
        job.leased(worker, d, t0).holds_lease(worker, now) <==> now <= time_after(t0, d),
{
}

/// One round of a job that fails: it is handed to a worker, and the worker
/// reports a failure.
pub struct FailedAttempt {
    pub worker: u64,
    pub lease_duration: u64,
    pub claimed_at: u64,
    pub error: Seq<char>,
    pub retry_at: u64,
}

/// The job after the given rounds, each of which ends in a failure. A job
/// that is no longer pending takes part in no further round.
pub open spec fn after_failed_attempts(job: JobView, rounds: Seq<FailedAttempt>) -> JobView
    decreases rounds.len(),
{
    if rounds.len() == 0 {
        job
    } else {
        let before = after_failed_attempts(job, rounds.drop_last());
        let round = rounds.last();
        if before.status == JobStatus::Pending {
            before.leased(round.worker, round.lease_duration, round.claimed_at).failed(
                round.error,
                round.retry_at,
            )
        } else {
            before
        }
    }
}

/// Retries are bounded. A new job that fails again and again is
/// dead-lettered by the failure that uses up its last attempt, not before
/// and not after: as long as fewer than `max_attempts` attempts have failed
/// it is pending, and from then on it is dead-lettered with exactly
/// `max_attempts` attempts counted.
pub proof fn lemma_bounded_retry(job: JobView, rounds: Seq<FailedAttempt>)
    requires
        job.wf(),
        job.status == JobStatus::Pending,
        job.attempts == 0,
        job.max_attempts >= 1,
    ensures
        ({
            let end = after_failed_attempts(job, rounds);
            &&& end.wf()
            &&& end.id == job.id
            &&& end.max_attempts == job.max_attempts
            &&& rounds.len() < job.max_attempts ==> end.status == JobStatus::Pending
                && end.attempts == rounds.len()
            &&& rounds.len() >= job.max_attempts ==> end.status == JobStatus::DeadLettered
                && end.attempts == job.max_attempts
            &&& end.status == JobStatus::DeadLettered <==> end.attempts == job.max_attempts
        }),
    decreases rounds.len(),
{
    if rounds.len() > 0 {
        lemma_bounded_retry(job, rounds.drop_last());
    }
}

/// Jobs leave a partition first in, first out. A claim hands out the
/// eligible jobs in the order of `scheduled_at`, then id, and every eligible
/// job that it leaves behind comes after all that it hands out.
pub proof fn lemma_claim_fifo(
    s: StoreView,
    queue: Seq<char>,
    worker: u64,
    batch: nat,
    lease_duration: u64,
    now: u64,
)
    requires
        s.wf(),
    ensures
        ({
            let out = s.claimed(queue, worker, batch, lease_duration, now).1;
            &&& forall|k: int, l: int|
                0 <= k < l < out.len() ==> (#[trigger] out[k]).precedes(#[trigger] out[l])
            &&& forall|i: int, k: int|
                0 <= i < s.jobs.len() && 0 <= k < out.len() && (#[trigger] s.jobs[i]).eligible(
                    queue,
                    now,
                ) && !handed_out(out, s.jobs[i].id) ==> (#[trigger] out[k]).precedes(s.jobs[i])
            &&& batch > 0 && s.has_eligible(queue, now) ==> out.len() > 0
        }),
{
    s.lemma_claimed(queue, worker, batch, lease_duration, now);
    let out = s.claimed(queue, worker, batch, lease_duration, now).1;
    if batch > 0 && s.has_eligible(queue, now) && out.len() == 0 {
        let i = choose|i: int| 0 <= i < s.jobs.len() && (#[trigger] s.jobs[i]).eligible(queue, now);
        assert(handed_out(out, s.jobs[i].id));
    }
}

/// A claim that finds nothing does nothing: when no job of the partition is
/// eligible, or no job is asked for, the claim hands out nothing and leaves
/// the store exactly as it was.
pub proof fn lemma_empty_claim(
    s: StoreView,
    queue: Seq<char>,
    worker: u64,
    batch: nat,
    lease_duration: u64,
    now: u64,
)
    requires
        s.wf(),
        batch == 0 || !s.has_eligible(queue, now),
    ensures
        s.claimed(queue, worker, batch, lease_duration, now) == (s, Seq::<JobView>::empty()),
{
    s.lemma_first_eligible(queue, now, s.jobs.len());
    if batch > 0 {
        match s.next_claim(queue, now) {
            Some(i) => {
                assert(s.jobs[i].eligible(queue, now));
            },
            None => {},
        }
    }
}

/// A withdrawn job is never handed out: once a job is cancelled, no claim
/// returns it and no operation changes it.
pub proof fn lemma_cancelled_is_never_claimed(
    s: StoreView,
    job_id: u64,
    i: int,
    queue: Seq<char>,
    worker: u64,
    batch: nat,
    lease_duration: u64,
    now: u64,
)
    requires
        s.wf(),
        0 <= i < s.jobs.len(),
        s.jobs[i].id == job_id,
        !s.jobs[i].status.terminal(),
    ensures
        s.with_cancelled(job_id).wf(),
        s.with_cancelled(job_id).jobs[i].status == JobStatus::Cancelled,
        !handed_out(
            s.with_cancelled(job_id).claimed(queue, worker, batch, lease_duration, now).1,
            job_id,
        ),
        s.with_cancelled(job_id).claimed(queue, worker, batch, lease_duration, now).0.jobs[i]
            == s.with_cancelled(job_id).jobs[i],
{
    let c = s.with_cancelled(job_id);
    lemma_apply_wf(s, Operation::Cancel { job_id }, now);
    assert(c == s.apply(Operation::Cancel { job_id }, now));
    c.lemma_claimed(queue, worker, batch, lease_duration, now);
    assert(c.jobs[i].id == job_id);
    assert(!c.jobs[i].eligible(queue, now));
}

} // verus!
