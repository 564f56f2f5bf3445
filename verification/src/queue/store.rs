//! The job store: the record of every job, and the atomic operations on it.

use vstd::prelude::*;
use super::backoff::BackoffPolicy;
use super::error::{LeaseLost, StoreUnavailable};
use super::job::{job_views, Job, JobView};
use super::model::StoreView;

verus! {

/// The record of every job.
///
/// A store is well-formed (see [`StoreView::wf`]) when it is made and stays
/// so under every method. Each method is one atomic transition. Callers that
/// share a store between threads or processes must run each call under one
/// lock or transaction; nothing else is needed to keep the guarantees of the
/// queue. To keep the record beyond the life of the process, save what
/// [`JobStore::snapshot`] returns and bring it back with
/// [`JobStore::restore`].
pub struct JobStore {
    jobs: Vec<Job>,
    next_id: u64,
    backoff: BackoffPolicy,
}

impl View for JobStore {
    type V = StoreView;

    closed spec fn view(&self) -> StoreView {
        StoreView {
            jobs: job_views(self.jobs@),
            next_id: self.next_id,
            backoff: self.backoff,
        }
    }
}

impl JobStore {
    /// An empty store with the given retry policy.
    pub fn new(backoff: BackoffPolicy) -> (store: JobStore)
        ensures
            store@ == StoreView::empty(backoff),
            store@.wf(),
    {
        let store = JobStore { jobs: Vec::new(), next_id: 0, backoff };
        assert(store@.jobs =~= Seq::empty());
        store
    }

    /// An empty store whose first job gets the id `first_id`: for a store
    /// that takes over where another left off.
    pub fn starting_at(backoff: BackoffPolicy, first_id: u64) -> (store: JobStore)
        ensures
            store@ == (StoreView { next_id: first_id, ..StoreView::empty(backoff) }),
            store@.wf(),
    {
        let store = JobStore { jobs: Vec::new(), next_id: first_id, backoff };
        assert(store@.jobs =~= Seq::empty());
        store
    }

    /// The store that holds `jobs`, in this order, and gives the next job
    /// the id `next_id`; `None` if that store would not be well-formed.
    pub fn restore(backoff: BackoffPolicy, jobs: Vec<Job>, next_id: u64) -> (r: Option<JobStore>)
        ensures
            match r {
                Some(store) => store@ == (StoreView { jobs: job_views(jobs@), next_id, backoff })
                    && store@.wf(),
                None => !(StoreView { jobs: job_views(jobs@), next_id, backoff }).wf(),
            },
    {
        let ghost view = StoreView { jobs: job_views(jobs@), next_id, backoff };
        let mut i: usize = 0;
        while i < jobs.len()
            invariant
                i <= jobs.len(),
                view == (StoreView { jobs: job_views(jobs@), next_id, backoff }),
                forall|k: int| 0 <= k < i ==> (#[trigger] view.jobs[k]).wf(),
                forall|k: int| 0 <= k < i ==> (#[trigger] view.jobs[k]).id < next_id,
                forall|k: int, l: int|
                    0 <= k < l < i ==> (#[trigger] view.jobs[k]).id < (#[trigger] view.jobs[l]).id,
            decreases jobs.len() - i,
        {
            if !jobs[i].is_well_formed() || jobs[i].id >= next_id {
                assert(!(view.jobs[i as int].wf() && view.jobs[i as int].id < next_id));
                return None;
            }
            if i > 0 && jobs[i - 1].id >= jobs[i].id {
                assert(!(view.jobs[i - 1].id < view.jobs[i as int].id));
                return None;
            }
            assert forall|k: int| 0 <= k < i implies (#[trigger] view.jobs[k]).id
                < view.jobs[i as int].id by {
                if k < i - 1 {
                    assert(view.jobs[k].id < view.jobs[i - 1].id);
                }
            }
            i = i + 1;
        }
        Some(JobStore { jobs, next_id, backoff })
    }

    /// Copies of all jobs, in the order in which they were created.
    pub fn snapshot(&self) -> (jobs: Vec<Job>)
        ensures
            job_views(jobs@) == self@.jobs,
    {
        let mut jobs: Vec<Job> = Vec::new();
        let mut i: usize = 0;
        while i < self.jobs.len()
            invariant
                i <= self.jobs.len(),
                job_views(jobs@) == self@.jobs.take(i as int),
            decreases self.jobs.len() - i,
        {
            let ghost before = job_views(jobs@);
            jobs.push(self.jobs[i].clone());
            assert(job_views(jobs@) =~= before.push(self@.jobs[i as int]));
            assert(self@.jobs.take(i + 1) =~= self@.jobs.take(i as int).push(self@.jobs[i as int]));
            i = i + 1;
        }
        assert(self@.jobs.take(i as int) =~= self@.jobs);
        jobs
    }

    /// The id that the next job gets.
    pub fn next_id(&self) -> (id: u64)
        ensures
            id == self@.next_id,
    {
        self.next_id
    }

    /// The retry policy.
    pub fn backoff(&self) -> (p: BackoffPolicy)
        ensures
            p == self@.backoff,
    {
        self.backoff
    }

    /// How many jobs the store holds, finished ones included.
    pub fn len(&self) -> (n: usize)
        ensures
            n == self@.jobs.len(),
    {
        self.jobs.len()
    }

    fn position(&self, job_id: u64) -> (r: Option<usize>)
        ensures
            match r {
                Some(i) => i < self@.jobs.len() && self@.jobs[i as int].id == job_id,
                None => !self@.contains(job_id),
            },
    {
        let mut i: usize = 0;
        while i < self.jobs.len()
            invariant
                i <= self.jobs.len(),
                forall|k: int| 0 <= k < i ==> (#[trigger] self@.jobs[k]).id != job_id,
            decreases self.jobs.len() - i,
        {
            if self.jobs[i].id == job_id {
                return Some(i);
            }
            i = i + 1;
        }
        None
    }

    /// Whether some job is leased to `worker_id`, expired or not.
    pub fn has_lease_of(&self, worker_id: u64) -> (r: bool)
        ensures
            r == self@.has_lease_of(worker_id),
    {
        let mut i: usize = 0;
        while i < self.jobs.len()
            invariant
                i <= self.jobs.len(),
                forall|k: int| 0 <= k < i ==> !(#[trigger] self@.jobs[k]).leased_by(worker_id),
            decreases self.jobs.len() - i,
        {
            if self.jobs[i].is_leased_by(worker_id) {
                assert(self@.jobs[i as int].leased_by(worker_id));
                return true;
            }
            i = i + 1;
        }
        false
    }

    /// A copy of the job with this id.
    pub fn get(&self, job_id: u64) -> (r: Option<Job>)
        requires
            self@.wf(),
        ensures
            match r {
                Some(job) => self@.lookup(job_id) == Some(job@),
                None => self@.lookup(job_id) is None,
            },
    {
        match self.position(job_id) {
            Some(i) => {
                let job = self.jobs[i].clone();
                assert(self@.jobs[i as int] == job@);
                Some(job)
            },
            None => None,
        }
    }

    /// Creates a pending job in partition `queue_name`, due at
    /// `scheduled_at`, or at once if none is given, and returns a copy of
    /// it.
    ///
    /// Fails only when the ids are used up; the store is then unchanged.
    pub fn enqueue(
        &mut self,
        queue_name: &str,
        payload: Vec<u8>,
        scheduled_at: Option<u64>,
        max_attempts: u32,
        now: u64,
    ) -> (r: Result<Job, StoreUnavailable>)
        requires
            old(self)@.wf(),
        ensures
            match r {
                Ok(job) => {
                    &&& !old(self)@.full()
                    &&& final(self)@ == old(self)@.enqueued(
                        queue_name@,
                        payload@,
                        scheduled_at,
                        max_attempts,
                        now,
                    )
                    &&& final(self)@.jobs.last() == job@
                    &&& job@.id == old(self)@.next_id
                },
                Err(_) => old(self)@.full() && final(self)@ == old(self)@,
            },
            final(self)@.wf(),
    {
        if self.next_id == u64::MAX {
            return Err(StoreUnavailable);
        }
        let due = match scheduled_at {
            Some(t) => t,
            None => now,
        };
        let id = self.next_id;
        let job = Job::new(id, queue_name.to_owned(), payload, due, max_attempts, now);
        let copy = job.clone();
        self.next_id = id + 1;
        self.jobs.push(job);
        assert(self@.jobs =~= old(self)@.enqueued(
            queue_name@,
            payload@,
            scheduled_at,
            max_attempts,
            now,
        ).jobs);
        Ok(copy)
    }

    /// Withdraws a job that has not reached a terminal state. A pending job
    /// will never be handed out; a leased job loses its lease, so that what
    /// its worker reports later is refused.
    ///
    /// Returns whether the job was withdrawn by this call: `false` when the
    /// job is already terminal or unknown, and the store is then unchanged.
    pub fn cancel(&mut self, job_id: u64) -> (withdrawn: bool)
        requires
            old(self)@.wf(),
        ensures
            withdrawn == old(self)@.live(job_id),
            final(self)@ == old(self)@.with_cancelled(job_id),
            final(self)@.wf(),
    {
        match self.position(job_id) {
            Some(i) => {
                if self.jobs[i].status.is_terminal() {
                    assert(self@.jobs =~= old(self)@.with_cancelled(job_id).jobs);
                    false
                } else {
                    self.jobs[i].cancel();
                    assert(self@.jobs =~= old(self)@.with_cancelled(job_id).jobs);
                    true
                }
            },
            None => {
                assert(self@.jobs =~= old(self)@.with_cancelled(job_id).jobs);
                false
            },
        }
    }

    /// Extends the lease that `worker_id` holds on the job by
    /// `extra_duration`, counted from the end of the lease as it stands.
    ///
    /// Fails, and changes nothing, unless the job is leased to `worker_id`.
    pub fn renew(&mut self, job_id: u64, worker_id: u64, extra_duration: u64) -> (r: Result<
        (),
        LeaseLost,
    >)
        requires
            old(self)@.wf(),
        ensures
            r is Ok <==> old(self)@.leased_by(job_id, worker_id),
            r is Err ==> final(self)@ == old(self)@,
            final(self)@ == old(self)@.with_renewed(job_id, worker_id, extra_duration),
            final(self)@.wf(),
    {
        match self.position(job_id) {
            Some(i) => {
                if self.jobs[i].is_leased_by(worker_id) {
                    self.jobs[i].renew(extra_duration);
                    assert(self@.jobs =~= old(self)@.with_renewed(
                        job_id,
                        worker_id,
                        extra_duration,
                    ).jobs);
                    Ok(())
                } else {
                    assert(self@.jobs =~= old(self)@.with_renewed(
                        job_id,
                        worker_id,
                        extra_duration,
                    ).jobs);
                    Err(LeaseLost)
                }
            },
            None => {
                assert(self@.jobs =~= old(self)@.with_renewed(
                    job_id,
                    worker_id,
                    extra_duration,
                ).jobs);
                Err(LeaseLost)
            },
        }
    }

    /// Records that `worker_id` finished the job at time `now`.
    ///
    /// Fails, and changes nothing, unless the job is leased to `worker_id`:
    /// the lease went to someone else, or the job was withdrawn, and the
    /// caller must discard its result.
    pub fn complete(&mut self, job_id: u64, worker_id: u64, now: u64) -> (r: Result<(), LeaseLost>)
        requires
            old(self)@.wf(),
        ensures
            r is Ok <==> old(self)@.leased_by(job_id, worker_id),
            r is Err ==> final(self)@ == old(self)@,
            final(self)@ == old(self)@.with_completed(job_id, worker_id, now),
            final(self)@.wf(),
    {
        match self.position(job_id) {
            Some(i) => {
                if self.jobs[i].is_leased_by(worker_id) {
                    self.jobs[i].complete(now);
                    assert(self@.jobs =~= old(self)@.with_completed(job_id, worker_id, now).jobs);
                    Ok(())
                } else {
                    assert(self@.jobs =~= old(self)@.with_completed(job_id, worker_id, now).jobs);
                    Err(LeaseLost)
                }
            },
            None => {
                assert(self@.jobs =~= old(self)@.with_completed(job_id, worker_id, now).jobs);
                Err(LeaseLost)
            },
        }
    }

    /// Records that an attempt of `worker_id` at the job failed at time
    /// `now`. While attempts are left the job becomes pending again, due
    /// after the backoff that the store's policy gives for the attempts so
    /// far; `entropy` is a random number from which the jitter is taken.
    /// With no attempt left the job is dead-lettered.
    ///
    /// Fails, and changes nothing, unless the job is leased to `worker_id`.
    pub fn fail(&mut self, job_id: u64, worker_id: u64, error: &str, now: u64, entropy: u64) -> (r:
        Result<(), LeaseLost>)
        requires
            old(self)@.wf(),
        ensures
            r is Ok <==> old(self)@.leased_by(job_id, worker_id),
            r is Err ==> final(self)@ == old(self)@,
            final(self)@ == old(self)@.with_failed(job_id, worker_id, error@, now, entropy),
            final(self)@.wf(),
    {
        match self.position(job_id) {
            Some(i) => {
                if self.jobs[i].is_leased_by(worker_id) {
                    let retry_at = self.backoff.next_attempt_at(self.jobs[i].attempts, now, entropy);
                    self.jobs[i].fail(error.to_owned(), retry_at);
                    assert(self@.jobs =~= old(self)@.with_failed(
                        job_id,
                        worker_id,
                        error@,
                        now,
                        entropy,
                    ).jobs);
                    Ok(())
                } else {
                    assert(self@.jobs =~= old(self)@.with_failed(
                        job_id,
                        worker_id,
                        error@,
                        now,
                        entropy,
                    ).jobs);
                    Err(LeaseLost)
                }
            },
            None => {
                assert(self@.jobs =~= old(self)@.with_failed(
                    job_id,
                    worker_id,
                    error@,
                    now,
                    entropy,
                ).jobs);
                Err(LeaseLost)
            },
        }
    }

    /// Records that `worker_id` found the job impossible to do: it is
    /// dead-lettered at once, whatever attempts are left.
    ///
    /// Fails, and changes nothing, unless the job is leased to `worker_id`.
    pub fn dead_letter(&mut self, job_id: u64, worker_id: u64, error: &str) -> (r: Result<
        (),
        LeaseLost,
    >)
        requires
            old(self)@.wf(),
        ensures
            r is Ok <==> old(self)@.leased_by(job_id, worker_id),
            r is Err ==> final(self)@ == old(self)@,
            final(self)@ == old(self)@.with_dead_lettered(job_id, worker_id, error@),
            final(self)@.wf(),
    {
        match self.position(job_id) {
            Some(i) => {
                if self.jobs[i].is_leased_by(worker_id) {
                    self.jobs[i].dead_letter(error.to_owned());
                    assert(self@.jobs =~= old(self)@.with_dead_lettered(
                        job_id,
                        worker_id,
                        error@,
                    ).jobs);
                    Ok(())
                } else {
                    assert(self@.jobs =~= old(self)@.with_dead_lettered(
                        job_id,
                        worker_id,
                        error@,
                    ).jobs);
                    Err(LeaseLost)
                }
            },
            None => {
                assert(self@.jobs =~= old(self)@.with_dead_lettered(
                    job_id,
                    worker_id,
                    error@,
                ).jobs);
                Err(LeaseLost)
            },
        }
    }

    /// Hands the one job `job_id` to `worker_id`, under a lease of
    /// `lease_duration` from `now`, if the job can be claimed at `now`: it is
    /// pending and due, or its lease was abandoned. Returns a copy of the job
    /// as it stands after that; `None`, and an unchanged store, if the job
    /// cannot be claimed or is unknown.
    ///
    /// This is the advisory lock for work that must run in one place at a
    /// time: the workers agree on the id of one job, each tries to acquire
    /// it, and the one that succeeds runs the task. Nobody else can acquire
    /// the job before the lease has run out.
    pub fn acquire(&mut self, job_id: u64, worker_id: u64, lease_duration: u64, now: u64) -> (r:
        Option<Job>)
        requires
            old(self)@.wf(),
        ensures
            r is Some <==> old(self)@.can_acquire(job_id, now),
            r is None ==> final(self)@ == old(self)@,
            r is Some ==> final(self)@.lookup(job_id) == Some(r->0@) && r->0@.holds_lease(
                worker_id,
                now,
            ),
            final(self)@ == old(self)@.with_acquired(job_id, worker_id, lease_duration, now),
            final(self)@.wf(),
    {
        match self.position(job_id) {
            Some(i) => {
                if self.jobs[i].is_due(now) {
                    self.jobs[i].lease_to(worker_id, lease_duration, now);
                    let copy = self.jobs[i].clone();
                    assert(self@.jobs =~= old(self)@.with_acquired(
                        job_id,
                        worker_id,
                        lease_duration,
                        now,
                    ).jobs);
                    assert(self@.jobs[i as int] == copy@);
                    Some(copy)
                } else {
                    assert(self@.jobs =~= old(self)@.with_acquired(
                        job_id,
                        worker_id,
                        lease_duration,
                        now,
                    ).jobs);
                    None
                }
            },
            None => {
                assert(self@.jobs =~= old(self)@.with_acquired(
                    job_id,
                    worker_id,
                    lease_duration,
                    now,
                ).jobs);
                None
            },
        }
    }

    fn find_next(&self, queue: &String, now: u64) -> (r: Option<usize>)
        ensures
            match r {
                Some(i) => i < self@.jobs.len() && self@.next_claim(queue@, now) == Some(i as int),
                None => self@.next_claim(queue@, now) is None,
            },
    {
        let mut best: Option<usize> = None;
        let mut i: usize = 0;
        while i < self.jobs.len()
            invariant
                i <= self.jobs.len(),
                match best {
                    Some(b) => b < i && self@.first_eligible(queue@, now, i as nat) == Some(
                        b as int,
                    ),
                    None => self@.first_eligible(queue@, now, i as nat) is None,
                },
            decreases self.jobs.len() - i,
        {
            if self.jobs[i].is_eligible(queue, now) {
                let better = match best {
                    None => true,
                    Some(b) => self.jobs[i].is_before(&self.jobs[b]),
                };
                if better {
                    best = Some(i);
                }
            }
            i = i + 1;
        }
        best
    }

    /// Hands up to `batch_size` jobs of partition `queue_name` to
    /// `worker_id`, each under a lease of `lease_duration` from `now`.
    ///
    /// A job can be claimed when it is pending and due, or when its lease is
    /// abandoned: its end lies before `now`. The jobs are chosen and returned
    /// in the order of `scheduled_at`, then of id. Each gets `worker_id` as
    /// its lease owner and one more attempt counted. Returns copies of the
    /// jobs as they stand after the claim; an empty list, and an unchanged
    /// store, when nothing can be claimed.
    pub fn claim(
        &mut self,
        queue_name: &str,
        worker_id: u64,
        batch_size: usize,
        lease_duration: u64,
        now: u64,
    ) -> (claimed: Vec<Job>)
        requires
            old(self)@.wf(),
        ensures
            (final(self)@, job_views(claimed@)) == old(self)@.claimed(
                queue_name@,
                worker_id,
                batch_size as nat,
                lease_duration,
                now,
            ),
            batch_size == 0 || !old(self)@.has_eligible(queue_name@, now) ==> claimed@.len() == 0
                && final(self)@ == old(self)@,
            claimed@.len() <= batch_size,
            final(self)@.wf(),
    {
        proof {
            old(self)@.lemma_claimed(queue_name@, worker_id, batch_size as nat, lease_duration, now);
            if batch_size == 0 || !old(self)@.has_eligible(queue_name@, now) {
                super::laws::lemma_empty_claim(
                    old(self)@,
                    queue_name@,
                    worker_id,
                    batch_size as nat,
                    lease_duration,
                    now,
                );
            }
        }
        let queue: String = queue_name.to_owned();
        let mut claimed: Vec<Job> = Vec::new();
        let mut done = false;
        assert(job_views(claimed@) + old(self)@.claimed(
            queue@,
            worker_id,
            batch_size as nat,
            lease_duration,
            now,
        ).1 =~= old(self)@.claimed(queue@, worker_id, batch_size as nat, lease_duration, now).1);
        while !done && claimed.len() < batch_size
            invariant
                self@.wf(),
                queue@ == queue_name@,
                claimed.len() <= batch_size,
                done ==> self@.next_claim(queue@, now) is None,
                old(self)@.claimed(queue@, worker_id, batch_size as nat, lease_duration, now) == ({
                    let (store, rest) = self@.claimed(
                        queue@,
                        worker_id,
                        (batch_size - claimed.len()) as nat,
                        lease_duration,
                        now,
                    );
                    (store, job_views(claimed@) + rest)
                }),
            decreases batch_size - claimed.len() + if done { 0int } else { 1int },
        {
            let ghost before = self@;
            let ghost taken = job_views(claimed@);
            match self.find_next(&queue, now) {
                None => {
                    done = true;
                },
                Some(i) => {
                    proof {
                        before.lemma_first_eligible(queue@, now, before.jobs.len());
                    }
                    self.jobs[i].lease_to(worker_id, lease_duration, now);
                    let copy = self.jobs[i].clone();
                    claimed.push(copy);
                    proof {
                        let job = before.jobs[i as int].leased(worker_id, lease_duration, now);
                        assert(self@.jobs =~= before.with_leased(
                            i as int,
                            worker_id,
                            lease_duration,
                            now,
                        ).jobs);
                        assert(job_views(claimed@) =~= taken.push(job));
                        let rest = self@.claimed(
                            queue@,
                            worker_id,
                            (batch_size - claimed.len()) as nat,
                            lease_duration,
                            now,
                        ).1;
                        assert(taken + (seq![job] + rest) =~= taken.push(job) + rest);
                    }
                },
            }
        }
        assert(job_views(claimed@) + Seq::<JobView>::empty() =~= job_views(claimed@));
        claimed
    }
}

} // verus!
