//! The job store as a mathematical value, and what each operation makes of
//! it.
//!
//! Every operation of the store is specified here as a function from the
//! store before to the store after. The executable store promises to follow
//! these functions exactly, and the laws of the queue are proved about them.

use vstd::prelude::*;
use super::backoff::BackoffPolicy;
use super::job::JobView;

verus! {

/// What a job store is: its jobs in the order in which they were created, the
/// id that the next job gets, and the retry policy.
pub struct StoreView {
    pub jobs: Seq<JobView>,
    pub next_id: u64,
    pub backoff: BackoffPolicy,
}

/// One call into the store, as a value: what is asked, and by whom.
pub enum Operation {
    Enqueue { queue: Seq<char>, payload: Seq<u8>, scheduled_at: Option<u64>, max_attempts: u32 },
    Cancel { job_id: u64 },
    Claim { queue: Seq<char>, worker: u64, batch: nat, lease_duration: u64 },
    Renew { job_id: u64, worker: u64, extra: u64 },
    Complete { job_id: u64, worker: u64 },
    Fail { job_id: u64, worker: u64, error: Seq<char>, entropy: u64 },
    DeadLetter { job_id: u64, worker: u64, error: Seq<char> },
    Acquire { job_id: u64, worker: u64, lease_duration: u64 },
}

impl StoreView {
    /// The store after `op` was carried out at time `now`.
    pub open spec fn apply(self, op: Operation, now: u64) -> StoreView {
        match op {
            Operation::Enqueue { queue, payload, scheduled_at, max_attempts } => if self.full() {
                self
            } else {
                self.enqueued(queue, payload, scheduled_at, max_attempts, now)
            },
            Operation::Cancel { job_id } => self.with_cancelled(job_id),
            Operation::Claim { queue, worker, batch, lease_duration } => self.claimed(
                queue,
                worker,
                batch,
                lease_duration,
                now,
            ).0,
            Operation::Renew { job_id, worker, extra } => self.with_renewed(job_id, worker, extra),
            Operation::Complete { job_id, worker } => self.with_completed(job_id, worker, now),
            Operation::Fail { job_id, worker, error, entropy } => self.with_failed(
                job_id,
                worker,
                error,
                now,
                entropy,
            ),
            Operation::DeadLetter { job_id, worker, error } => self.with_dead_lettered(
                job_id,
                worker,
                error,
            ),
            Operation::Acquire { job_id, worker, lease_duration } => self.with_acquired(
                job_id,
                worker,
                lease_duration,
                now,
            ),
        }
    }

    /// Every job is well-formed, ids grow along the sequence, and all lie
    /// below `next_id`. In particular no two jobs share an id.
    pub open spec fn wf(self) -> bool {
        &&& forall|i: int| 0 <= i < self.jobs.len() ==> (#[trigger] self.jobs[i]).wf()
        &&& forall|i: int| 0 <= i < self.jobs.len() ==> (#[trigger] self.jobs[i]).id < self.next_id
        &&& forall|i: int, j: int|
            0 <= i < j < self.jobs.len() ==> (#[trigger] self.jobs[i]).id < (
            #[trigger] self.jobs[j]).id
    }

    /// An empty store.
    pub open spec fn empty(backoff: BackoffPolicy) -> StoreView {
        StoreView { jobs: Seq::empty(), next_id: 0, backoff }
    }

    /// Whether the store holds a job with this id.
    pub open spec fn contains(self, id: u64) -> bool {
        exists|i: int| 0 <= i < self.jobs.len() && (#[trigger] self.jobs[i]).id == id
    }

    /// The job with this id, if the store holds one.
    pub open spec fn lookup(self, id: u64) -> Option<JobView> {
        if self.contains(id) {
            let i = choose|i: int| 0 <= i < self.jobs.len() && (#[trigger] self.jobs[i]).id == id;
            Some(self.jobs[i])
        } else {
            None
        }
    }

    /// The ids are used up: the store can take no further job.
    pub open spec fn full(self) -> bool {
        self.next_id == u64::MAX
    }

    /// The store after a job was created. Without a `scheduled_at` the job
    /// is due at once.
    pub open spec fn enqueued(
        self,
        queue: Seq<char>,
        payload: Seq<u8>,
        scheduled_at: Option<u64>,
        max_attempts: u32,
        now: u64,
    ) -> StoreView {
        let due = match scheduled_at {
            Some(t) => t,
            None => now,
        };
        StoreView {
            jobs: self.jobs.push(
                JobView::fresh(self.next_id, queue, payload, due, max_attempts, now),
            ),
            next_id: (self.next_id + 1) as u64,
            ..self
        }
    }

    /// Whether the store holds the job and it has not reached a terminal
    /// state.
    pub open spec fn live(self, id: u64) -> bool {
        exists|i: int|
            0 <= i < self.jobs.len() && (#[trigger] self.jobs[i]).id == id
                && !self.jobs[i].status.terminal()
    }

    /// The store after job `id` was withdrawn, if it was live.
    pub open spec fn with_cancelled(self, id: u64) -> StoreView {
        StoreView {
            jobs: Seq::new(
                self.jobs.len(),
                |i: int|
                    if self.jobs[i].id == id && !self.jobs[i].status.terminal() {
                        self.jobs[i].cancelled()
                    } else {
                        self.jobs[i]
                    },
            ),
            ..self
        }
    }

    /// Whether `worker` holds the lease on job `id`, expired or not.
    pub open spec fn leased_by(self, id: u64, worker: u64) -> bool {
        exists|i: int|
            0 <= i < self.jobs.len() && (#[trigger] self.jobs[i]).id == id
                && self.jobs[i].leased_by(worker)
    }

    /// The store after `worker` extended its lease on job `id`.
    pub open spec fn with_renewed(self, id: u64, worker: u64, extra: u64) -> StoreView {
        StoreView {
            jobs: Seq::new(
                self.jobs.len(),
                |i: int|
                    if self.jobs[i].id == id && self.jobs[i].leased_by(worker) {
                        self.jobs[i].renewed(extra)
                    } else {
                        self.jobs[i]
                    },
            ),
            ..self
        }
    }

    /// The store after `worker` reported success for job `id`.
    pub open spec fn with_completed(self, id: u64, worker: u64, now: u64) -> StoreView {
        StoreView {
            jobs: Seq::new(
                self.jobs.len(),
                |i: int|
                    if self.jobs[i].id == id && self.jobs[i].leased_by(worker) {
                        self.jobs[i].completed(now)
                    } else {
                        self.jobs[i]
                    },
            ),
            ..self
        }
    }

    /// The store after `worker` reported a failed attempt for job `id` at
    /// time `now`. The retry time follows the store's backoff policy.
    pub open spec fn with_failed(
        self,
        id: u64,
        worker: u64,
        error: Seq<char>,
        now: u64,
        entropy: u64,
    ) -> StoreView {
        StoreView {
            jobs: Seq::new(
                self.jobs.len(),
                |i: int|
                    if self.jobs[i].id == id && self.jobs[i].leased_by(worker) {
                        self.jobs[i].failed(
                            error,
                            self.backoff.retry_at(self.jobs[i].attempts, now, entropy),
                        )
                    } else {
                        self.jobs[i]
                    },
            ),
            ..self
        }
    }

    /// The store after `worker` reported a failure of job `id` that no retry
    /// can mend.
    pub open spec fn with_dead_lettered(self, id: u64, worker: u64, error: Seq<char>) -> StoreView {
        StoreView {
            jobs: Seq::new(
                self.jobs.len(),
                |i: int|
                    if self.jobs[i].id == id && self.jobs[i].leased_by(worker) {
                        self.jobs[i].dead_lettered(error)
                    } else {
                        self.jobs[i]
                    },
            ),
            ..self
        }
    }

    /// Whether job `id` may be handed out at `now`.
    pub open spec fn can_acquire(self, id: u64, now: u64) -> bool {
        exists|i: int|
            0 <= i < self.jobs.len() && (#[trigger] self.jobs[i]).id == id && self.jobs[i].due(now)
    }

    /// The store after job `id` was handed to `worker` at `now`, if it could
    /// be.
    pub open spec fn with_acquired(self, id: u64, worker: u64, lease_duration: u64, now: u64) -> StoreView {
        StoreView {
            jobs: Seq::new(
                self.jobs.len(),
                |i: int|
                    if self.jobs[i].id == id && self.jobs[i].due(now) {
                        self.jobs[i].leased(worker, lease_duration, now)
                    } else {
                        self.jobs[i]
                    },
            ),
            ..self
        }
    }

    /// Whether some job is leased to `worker`, expired or not.
    pub open spec fn has_lease_of(self, worker: u64) -> bool {
        exists|i: int| 0 <= i < self.jobs.len() && (#[trigger] self.jobs[i]).leased_by(worker)
    }

    /// Whether some job of partition `queue` may be handed out at `now`.
    pub open spec fn has_eligible(self, queue: Seq<char>, now: u64) -> bool {
        exists|i: int| 0 <= i < self.jobs.len() && (#[trigger] self.jobs[i]).eligible(queue, now)
    }

    /// Among the first `n` jobs, the place of the eligible job that comes
    /// before every other eligible one; `None` if none of them is eligible.
    pub open spec fn first_eligible(self, queue: Seq<char>, now: u64, n: nat) -> Option<int>
        decreases n,
    {
        if n == 0 {
            None
        } else {
            let i = n - 1;
            match self.first_eligible(queue, now, i as nat) {
                None => if self.jobs[i].eligible(queue, now) {
                    Some(i)
                } else {
                    None
                },
                Some(best) => if self.jobs[i].eligible(queue, now) && self.jobs[i].precedes(
                    self.jobs[best],
                ) {
                    Some(i)
                } else {
                    Some(best)
                },
            }
        }
    }

    /// What `first_eligible` finds: an eligible job among the first `n` that
    /// no other eligible job among them precedes; or that none is eligible.
    pub proof fn lemma_first_eligible(self, queue: Seq<char>, now: u64, n: nat)
        requires
            n <= self.jobs.len(),
        ensures
            match self.first_eligible(queue, now, n) {
                Some(b) => {
                    &&& 0 <= b < n
                    &&& self.jobs[b].eligible(queue, now)
                    &&& forall|k: int|
                        0 <= k < n && (#[trigger] self.jobs[k]).eligible(queue, now)
                            ==> !self.jobs[k].precedes(self.jobs[b])
                },
                None => forall|k: int| 0 <= k < n ==> !(#[trigger] self.jobs[k]).eligible(queue, now),
            },
        decreases n,
    {
        if n > 0 {
            self.lemma_first_eligible(queue, now, (n - 1) as nat);
        }
    }

    /// The place of the job that the next claim on `queue` hands out.
    pub open spec fn next_claim(self, queue: Seq<char>, now: u64) -> Option<int> {
        self.first_eligible(queue, now, self.jobs.len())
    }

    /// The store with the job at place `i` handed to `worker`.
    pub open spec fn with_leased(self, i: int, worker: u64, lease_duration: u64, now: u64) -> StoreView {
        StoreView {
            jobs: self.jobs.update(i, self.jobs[i].leased(worker, lease_duration, now)),
            ..self
        }
    }

    /// A claim of up to `batch` jobs of partition `queue` by `worker` at
    /// time `now`: the store after it, and the jobs handed out, in order.
    ///
    /// One job at a time, the eligible job that comes first is leased to the
    /// worker, until `batch` jobs are leased or none is eligible.
    pub open spec fn claimed(
        self,
        queue: Seq<char>,
        worker: u64,
        batch: nat,
        lease_duration: u64,
        now: u64,
    ) -> (StoreView, Seq<JobView>)
        decreases batch,
    {
        if batch == 0 {
            (self, Seq::empty())
        } else {
            match self.next_claim(queue, now) {
                None => (self, Seq::empty()),
                Some(i) => {
                    let job = self.jobs[i].leased(worker, lease_duration, now);
                    let (store, rest) = self.with_leased(i, worker, lease_duration, now).claimed(
                        queue,
                        worker,
                        (batch - 1) as nat,
                        lease_duration,
                        now,
                    );
                    (store, seq![job] + rest)
                },
            }
        }
    }

    /// Leasing an eligible job keeps the store well-formed, and the job is
    /// then no longer eligible at the same instant, while every other job is
    /// as eligible as before.
    pub proof fn lemma_with_leased(
        self,
        i: int,
        queue: Seq<char>,
        worker: u64,
        lease_duration: u64,
        now: u64,
    )
        requires
            self.wf(),
            0 <= i < self.jobs.len(),
            self.jobs[i].eligible(queue, now),
        ensures
            self.with_leased(i, worker, lease_duration, now).wf(),
            !self.with_leased(i, worker, lease_duration, now).jobs[i].eligible(queue, now),
    {
        let after = self.with_leased(i, worker, lease_duration, now);
        assert forall|k: int| 0 <= k < after.jobs.len() implies (#[trigger] after.jobs[k]).wf() by {
            if k != i {
                assert(after.jobs[k] == self.jobs[k]);
            }
        }
        assert forall|k: int| 0 <= k < after.jobs.len() implies (#[trigger] after.jobs[k]).id
            < after.next_id by {
            assert(after.jobs[k].id == self.jobs[k].id);
        }
        assert forall|k: int, l: int| 0 <= k < l < after.jobs.len() implies (
        #[trigger] after.jobs[k]).id < (#[trigger] after.jobs[l]).id by {
            assert(after.jobs[k].id == self.jobs[k].id);
            assert(after.jobs[l].id == self.jobs[l].id);
        }
    }

    /// What a claim does, stated without reference to how it is computed.
    ///
    /// The store keeps its jobs in their places. The jobs handed out are
    /// exactly jobs that were eligible, each in its leased form, and every
    /// other job is untouched. They come in the order of `scheduled_at`, then
    /// id. No eligible job is passed over in favour of a later one, and fewer
    /// than `batch` jobs are handed out only when every eligible job is.
    pub proof fn lemma_claimed(
        self,
        queue: Seq<char>,
        worker: u64,
        batch: nat,
        lease_duration: u64,
        now: u64,
    )
        requires
            self.wf(),
        ensures
            ({
                let (after, out) = self.claimed(queue, worker, batch, lease_duration, now);
                &&& after.wf()
                &&& after.jobs.len() == self.jobs.len()
                &&& after.next_id == self.next_id
                &&& after.backoff == self.backoff
                &&& out.len() <= batch
                &&& forall|k: int|
                    0 <= k < out.len() ==> exists|i: int|
                        0 <= i < self.jobs.len() && self.jobs[i].eligible(queue, now)
                            && self.jobs[i].leased(worker, lease_duration, now) == #[trigger] out[k]
                            && #[trigger] after.jobs[i] == out[k]
                &&& forall|i: int|
                    0 <= i < self.jobs.len() ==> #[trigger] after.jobs[i] == if handed_out(
                        out,
                        self.jobs[i].id,
                    ) {
                        self.jobs[i].leased(worker, lease_duration, now)
                    } else {
                        self.jobs[i]
                    }
                &&& forall|i: int|
                    0 <= i < self.jobs.len() && handed_out(out, (#[trigger] self.jobs[i]).id)
                        ==> self.jobs[i].eligible(queue, now)
                &&& forall|k: int, l: int|
                    0 <= k < l < out.len() ==> (#[trigger] out[k]).precedes(#[trigger] out[l])
                &&& forall|i: int, k: int|
                    0 <= i < self.jobs.len() && 0 <= k < out.len() && (
                    #[trigger] self.jobs[i]).eligible(queue, now) && !handed_out(
                        out,
                        self.jobs[i].id,
                    ) ==> (#[trigger] out[k]).precedes(self.jobs[i])
                &&& out.len() < batch ==> forall|i: int|
                    0 <= i < self.jobs.len() && (#[trigger] self.jobs[i]).eligible(queue, now)
                        ==> handed_out(out, self.jobs[i].id)
            }),
        decreases batch,
    {
        let (after, out) = self.claimed(queue, worker, batch, lease_duration, now);
        self.lemma_first_eligible(queue, now, self.jobs.len());
        if batch == 0 {
        } else {
            match self.next_claim(queue, now) {
                None => {},
                Some(i0) => {
                    let job0 = self.jobs[i0].leased(worker, lease_duration, now);
                    let mid = self.with_leased(i0, worker, lease_duration, now);
                    let (_s, rest) = mid.claimed(
                        queue,
                        worker,
                        (batch - 1) as nat,
                        lease_duration,
                        now,
                    );
                    self.lemma_with_leased(i0, queue, worker, lease_duration, now);
                    mid.lemma_claimed(queue, worker, (batch - 1) as nat, lease_duration, now);
                    assert(out == seq![job0] + rest);
                    assert(out[0] == job0);
                    assert forall|k: int| 1 <= k < out.len() implies #[trigger] out[k] == rest[k
                        - 1] by {}
                    // the rest comes from other places than i0
                    assert(!handed_out(rest, job0.id)) by {
                        if handed_out(rest, job0.id) {
                            assert(mid.jobs[i0].id == job0.id);
                            assert(handed_out(rest, mid.jobs[i0].id));
                        }
                    }
                    assert forall|id: u64| handed_out(out, id) <==> (id == job0.id || handed_out(
                        rest,
                        id,
                    )) by {
                        if handed_out(out, id) {
                            let k = choose|k: int| 0 <= k < out.len() && (#[trigger] out[k]).id == id;
                            if k > 0 {
                                assert(rest[k - 1].id == id);
                            }
                        }
                        if handed_out(rest, id) {
                            let k = choose|k: int|
                                0 <= k < rest.len() && (#[trigger] rest[k]).id == id;
                            assert(out[k + 1].id == id);
                        }
                        if id == job0.id {
                            assert(out[0].id == id);
                        }
                    }
                    assert forall|i: int| 0 <= i < self.jobs.len() && i != i0 implies (
                    #[trigger] mid.jobs[i]) == self.jobs[i] && self.jobs[i].id != job0.id by {
                        if i < i0 {
                            assert(self.jobs[i].id < self.jobs[i0].id);
                        } else {
                            assert(self.jobs[i0].id < self.jobs[i].id);
                        }
                    }
                    assert forall|k: int| 0 <= k < out.len() implies exists|i: int|
                        0 <= i < self.jobs.len() && self.jobs[i].eligible(queue, now)
                            && self.jobs[i].leased(worker, lease_duration, now) == #[trigger] out[k]
                            && #[trigger] after.jobs[i] == out[k] by {
                        if k == 0 {
                            assert(after.jobs[i0] == mid.jobs[i0]);
                            assert(after.jobs[i0] == out[0]);
                        } else {
                            let i = choose|i: int|
                                0 <= i < mid.jobs.len() && mid.jobs[i].eligible(queue, now)
                                    && mid.jobs[i].leased(worker, lease_duration, now) == rest[k
                                    - 1] && #[trigger] after.jobs[i] == rest[k - 1];
                            assert(i != i0);
                            assert(mid.jobs[i] == self.jobs[i]);
                            assert(after.jobs[i] == out[k]);
                        }
                    }
                    assert forall|i: int| 0 <= i < self.jobs.len() implies #[trigger] after.jobs[i]
                        == if handed_out(out, self.jobs[i].id) {
                        self.jobs[i].leased(worker, lease_duration, now)
                    } else {
                        self.jobs[i]
                    } by {
                        if i != i0 {
                            assert(mid.jobs[i] == self.jobs[i]);
                        } else {
                            assert(mid.jobs[i0] == job0);
                        }
                    }
                    assert forall|i: int|
                        0 <= i < self.jobs.len() && handed_out(
                            out,
                            (#[trigger] self.jobs[i]).id,
                        ) implies self.jobs[i].eligible(queue, now) by {
                        if i != i0 {
                            assert(mid.jobs[i] == self.jobs[i]);
                            assert(handed_out(rest, mid.jobs[i].id));
                        }
                    }
                    // job0 comes before every other eligible job
                    assert forall|i: int|
                        0 <= i < self.jobs.len() && i != i0 && (#[trigger] self.jobs[i]).eligible(
                            queue,
                            now,
                        ) implies self.jobs[i0].precedes(self.jobs[i]) by {
                        assert(!self.jobs[i].precedes(self.jobs[i0]));
                        assert(self.jobs[i].id != self.jobs[i0].id);
                    }
                    assert forall|k: int, l: int| 0 <= k < l < out.len() implies (
                    #[trigger] out[k]).precedes(#[trigger] out[l]) by {
                        if k == 0 {
                            let i = choose|i: int|
                                0 <= i < mid.jobs.len() && mid.jobs[i].eligible(queue, now)
                                    && mid.jobs[i].leased(worker, lease_duration, now) == rest[l
                                    - 1] && #[trigger] after.jobs[i] == rest[l - 1];
                            assert(i != i0);
                            assert(mid.jobs[i] == self.jobs[i]);
                            assert(self.jobs[i0].precedes(self.jobs[i]));
                        } else {
                            assert(rest[k - 1].precedes(rest[l - 1]));
                        }
                    }
                    assert forall|i: int, k: int|
                        0 <= i < self.jobs.len() && 0 <= k < out.len() && (
                        #[trigger] self.jobs[i]).eligible(queue, now) && !handed_out(
                            out,
                            self.jobs[i].id,
                        ) implies (#[trigger] out[k]).precedes(self.jobs[i]) by {
                        assert(i != i0);
                        assert(mid.jobs[i] == self.jobs[i]);
                        if k == 0 {
                            assert(self.jobs[i0].precedes(self.jobs[i]));
                        } else {
                            assert(rest[k - 1].precedes(mid.jobs[i]));
                        }
                    }
                    if out.len() < batch {
                        assert forall|i: int|
                            0 <= i < self.jobs.len() && (#[trigger] self.jobs[i]).eligible(
                                queue,
                                now,
                            ) implies handed_out(out, self.jobs[i].id) by {
                            if i != i0 {
                                assert(mid.jobs[i] == self.jobs[i]);
                                assert(handed_out(rest, mid.jobs[i].id));
                            }
                        }
                    }
                },
            }
        }
    }
}

/// Whether a job with this id is among the jobs handed out.
pub open spec fn handed_out(out: Seq<JobView>, id: u64) -> bool {
    exists|k: int| 0 <= k < out.len() && (#[trigger] out[k]).id == id
}

} // verus!
