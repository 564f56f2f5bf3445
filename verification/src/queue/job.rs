//! The job record, its states, and the transitions of a single job.

use vstd::prelude::*;

verus! {

/// Adds a duration to a point in time; a sum past the end of time is the end
/// of time.
pub open spec fn time_after(t: u64, d: u64) -> u64 {
    if t + d > u64::MAX {
        u64::MAX
    } else {
        (t + d) as u64
    }
}

/// Adds a duration to a point in time, saturating at the end of time.
pub fn add_duration(t: u64, d: u64) -> (r: u64)
    ensures
        r == time_after(t, d),
        r >= t,
        r >= d,
{
    if d > u64::MAX - t {
        u64::MAX
    } else {
        t + d
    }
}

/// The state of a job.
#[derive(Clone, Copy, Debug, PartialEq, Eq, Structural)]
pub enum JobStatus {
    /// Waiting to be claimed, not before `scheduled_at`.
    Pending,
    /// Held by a worker until the lease ends.
    Leased,
    /// Done. Terminal.
    Completed,
    /// An attempt failed and the retry is not yet scheduled. The store never
    /// leaves a job in this state: a failed attempt goes straight back to
    /// `Pending` with a later `scheduled_at`, or to `DeadLettered`.
    Failed,
    /// Failed for good after the last allowed attempt. Terminal.
    DeadLettered,
    /// Withdrawn by the producer. Terminal.
    Cancelled,
}

impl JobStatus {
    /// A terminal state is never left again.
    pub open spec fn terminal(self) -> bool {
        self == JobStatus::Completed || self == JobStatus::DeadLettered || self
            == JobStatus::Cancelled
    }

    /// Whether the state is one of `Completed`, `DeadLettered`, `Cancelled`.
    #[verifier::when_used_as_spec(terminal)]
    pub fn is_terminal(self) -> (r: bool)
        ensures
            r == self.terminal(),
    {
        match self {
            JobStatus::Completed => true,
            JobStatus::DeadLettered => true,
            JobStatus::Cancelled => true,
            JobStatus::Pending => false,
            JobStatus::Leased => false,
            JobStatus::Failed => false,
        }
    }
}

/// A unit of deferred work.
#[derive(Debug, PartialEq, Eq)]
pub struct Job {
    /// Given by the store when the job is created; never changes.
    pub id: u64,
    /// The partition. Jobs compete only with jobs of the same partition.
    pub queue_name: String,
    /// Owned by the producer; the queue never looks inside.
    pub payload: Vec<u8>,
    pub status: JobStatus,
    /// The job is not handed out before this time.
    pub scheduled_at: u64,
    /// How many times the job was handed to a worker.
    pub attempts: u32,
    /// After this many attempts a failure is final.
    pub max_attempts: u32,
    /// The worker that holds the lease, while the job is `Leased`.
    pub lease_owner: Option<u64>,
    /// The lease is abandoned once the time is past this.
    pub lease_expires_at: Option<u64>,
    /// What the last failed attempt reported.
    pub last_error: Option<String>,
    pub created_at: u64,
    /// When the job reached `Completed`.
    pub completed_at: Option<u64>,
}

/// What a [`Job`] is, as a mathematical value.
pub struct JobView {
    pub id: u64,
    pub queue_name: Seq<char>,
    pub payload: Seq<u8>,
    pub status: JobStatus,
    pub scheduled_at: u64,
    pub attempts: u32,
    pub max_attempts: u32,
    pub lease_owner: Option<u64>,
    pub lease_expires_at: Option<u64>,
    pub last_error: Option<Seq<char>>,
    pub created_at: u64,
    pub completed_at: Option<u64>,
}

impl View for Job {
    type V = JobView;

    open spec fn view(&self) -> JobView {
        JobView {
            id: self.id,
            queue_name: self.queue_name@,
            payload: self.payload@,
            status: self.status,
            scheduled_at: self.scheduled_at,
            attempts: self.attempts,
            max_attempts: self.max_attempts,
            lease_owner: self.lease_owner,
            lease_expires_at: self.lease_expires_at,
            last_error: match self.last_error {
                Some(e) => Some(e@),
                None => None,
            },
            created_at: self.created_at,
            completed_at: self.completed_at,
        }
    }
}

/// The jobs of a list, each as a mathematical value.
pub open spec fn job_views(jobs: Seq<Job>) -> Seq<JobView> {
    jobs.map_values(|j: Job| j@)
}

impl JobView {
    /// A freshly created job.
    pub open spec fn fresh(
        id: u64,
        queue_name: Seq<char>,
        payload: Seq<u8>,
        scheduled_at: u64,
        max_attempts: u32,
        now: u64,
    ) -> JobView {
        JobView {
            id,
            queue_name,
            payload,
            status: JobStatus::Pending,
            scheduled_at,
            attempts: 0,
            max_attempts,
            lease_owner: None,
            lease_expires_at: None,
            last_error: None,
            created_at: now,
            completed_at: None,
        }
    }

    /// The lease fields are set exactly while the job is `Leased`, the
    /// completion time exactly when it is `Completed`, and the job is not
    /// stuck in `Failed`.
    pub open spec fn wf(self) -> bool {
        &&& self.status == JobStatus::Leased <==> self.lease_owner is Some
        &&& self.status == JobStatus::Leased <==> self.lease_expires_at is Some
        &&& self.status == JobStatus::Completed <==> self.completed_at is Some
        &&& self.status != JobStatus::Failed
    }

    /// Whether `worker` holds the lease, expired or not.
    pub open spec fn leased_by(self, worker: u64) -> bool {
        self.status == JobStatus::Leased && self.lease_owner == Some(worker)
    }

    /// Whether `worker` holds a lease that is still running at time `t`.
    pub open spec fn holds_lease(self, worker: u64, t: u64) -> bool {
        &&& self.leased_by(worker)
        &&& self.lease_expires_at is Some
        &&& self.lease_expires_at->0 >= t
    }

    /// Whether the job may be handed to a worker at time `now`: it is pending
    /// and due, or its lease was abandoned, which it is once `now` is past
    /// the end of the lease.
    pub open spec fn due(self, now: u64) -> bool {
        match self.status {
            JobStatus::Pending => self.scheduled_at <= now,
            JobStatus::Leased => self.lease_expires_at is Some && self.lease_expires_at->0 < now,
            _ => false,
        }
    }

    /// Whether the job may be handed to a worker of partition `queue` at time
    /// `now`.
    pub open spec fn eligible(self, queue: Seq<char>, now: u64) -> bool {
        self.queue_name == queue && self.due(now)
    }

    /// The first instant at which the job, left alone, can be claimed: when
    /// it is due, or just after its lease has run out.
    pub open spec fn claimable_from(self) -> int {
        match self.status {
            JobStatus::Leased => match self.lease_expires_at {
                Some(t) => t + 1,
                None => 0,
            },
            _ => self.scheduled_at as int,
        }
    }

    /// The order in which eligible jobs are handed out: earlier
    /// `scheduled_at` first, and among equals the smaller id.
    pub open spec fn precedes(self, other: JobView) -> bool {
        self.scheduled_at < other.scheduled_at || (self.scheduled_at == other.scheduled_at
            && self.id < other.id)
    }

    /// The job after it was handed to `worker` at time `now`.
    pub open spec fn leased(self, worker: u64, lease_duration: u64, now: u64) -> JobView {
        JobView {
            status: JobStatus::Leased,
            lease_owner: Some(worker),
            lease_expires_at: Some(time_after(now, lease_duration)),
            attempts: if self.attempts < u32::MAX {
                (self.attempts + 1) as u32
            } else {
                u32::MAX
            },
            ..self
        }
    }

    /// The job after its lease was extended by `extra`.
    pub open spec fn renewed(self, extra: u64) -> JobView {
        JobView {
            lease_expires_at: match self.lease_expires_at {
                Some(t) => Some(time_after(t, extra)),
                None => None,
            },
            ..self
        }
    }

    /// The job after its worker reported success at time `now`.
    pub open spec fn completed(self, now: u64) -> JobView {
        JobView {
            status: JobStatus::Completed,
            lease_owner: None,
            lease_expires_at: None,
            completed_at: Some(now),
            ..self
        }
    }

    /// Whether a failure now is final: the attempts are used up.
    pub open spec fn exhausted(self) -> bool {
        self.attempts >= self.max_attempts
    }

    /// The job after a failed attempt that will be retried at `retry_at`.
    pub open spec fn rescheduled(self, error: Seq<char>, retry_at: u64) -> JobView {
        JobView {
            status: JobStatus::Pending,
            lease_owner: None,
            lease_expires_at: None,
            scheduled_at: retry_at,
            last_error: Some(error),
            ..self
        }
    }

    /// The job after its last failure.
    pub open spec fn dead_lettered(self, error: Seq<char>) -> JobView {
        JobView {
            status: JobStatus::DeadLettered,
            lease_owner: None,
            lease_expires_at: None,
            last_error: Some(error),
            ..self
        }
    }

    /// The job after a failed attempt: rescheduled while attempts are left,
    /// else dead-lettered.
    pub open spec fn failed(self, error: Seq<char>, retry_at: u64) -> JobView {
        if self.exhausted() {
            self.dead_lettered(error)
        } else {
            self.rescheduled(error, retry_at)
        }
    }

    /// The job after the producer withdrew it.
    pub open spec fn cancelled(self) -> JobView {
        JobView {
            status: JobStatus::Cancelled,
            lease_owner: None,
            lease_expires_at: None,
            ..self
        }
    }
}

impl Clone for Job {
    fn clone(&self) -> (r: Job)
        ensures
            r@ == self@,
    {
        let payload = self.payload.clone();
        assert(payload@ =~= self.payload@);
        Job {
            id: self.id,
            queue_name: self.queue_name.clone(),
            payload,
            status: self.status,
            scheduled_at: self.scheduled_at,
            attempts: self.attempts,
            max_attempts: self.max_attempts,
            lease_owner: self.lease_owner,
            lease_expires_at: self.lease_expires_at,
            last_error: match &self.last_error {
                Some(e) => Some(e.clone()),
                None => None,
            },
            created_at: self.created_at,
            completed_at: self.completed_at,
        }
    }
}

impl Job {
    /// A new pending job.
    pub fn new(
        id: u64,
        queue_name: String,
        payload: Vec<u8>,
        scheduled_at: u64,
        max_attempts: u32,
        now: u64,
    ) -> (job: Job)
        ensures
            job@ == JobView::fresh(id, queue_name@, payload@, scheduled_at, max_attempts, now),
            job@.wf(),
    {
        Job {
            id,
            queue_name,
            payload,
            status: JobStatus::Pending,
            scheduled_at,
            attempts: 0,
            max_attempts,
            lease_owner: None,
            lease_expires_at: None,
            last_error: None,
            created_at: now,
            completed_at: None,
        }
    }

    /// Whether the record is well-formed; see [`JobView::wf`].
    pub fn is_well_formed(&self) -> (r: bool)
        ensures
            r == self@.wf(),
    {
        let leased = match self.status {
            JobStatus::Leased => true,
            _ => false,
        };
        let completed = match self.status {
            JobStatus::Completed => true,
            _ => false,
        };
        let failed = match self.status {
            JobStatus::Failed => true,
            _ => false,
        };
        leased == self.lease_owner.is_some() && leased == self.lease_expires_at.is_some()
            && completed == self.completed_at.is_some() && !failed
    }

    /// Whether the job may be handed to a worker of partition `queue` at time
    /// `now`.
    pub fn is_eligible(&self, queue: &String, now: u64) -> (r: bool)
        ensures
            r == self@.eligible(queue@, now),
    {
        self.queue_name == *queue && self.is_due(now)
    }

    /// Whether the job may be handed to a worker at time `now`.
    pub fn is_due(&self, now: u64) -> (r: bool)
        ensures
            r == self@.due(now),
    {
        match self.status {
            JobStatus::Pending => self.scheduled_at <= now,
            JobStatus::Leased => match self.lease_expires_at {
                Some(t) => t < now,
                None => false,
            },
            _ => false,
        }
    }

    /// Whether this job is handed out before `other`.
    pub fn is_before(&self, other: &Job) -> (r: bool)
        ensures
            r == self@.precedes(other@),
    {
        self.scheduled_at < other.scheduled_at || (self.scheduled_at == other.scheduled_at
            && self.id < other.id)
    }

    /// Whether `worker` holds the lease on this job, expired or not.
    pub fn is_leased_by(&self, worker: u64) -> (r: bool)
        ensures
            r == self@.leased_by(worker),
    {
        match self.status {
            JobStatus::Leased => match self.lease_owner {
                Some(w) => w == worker,
                None => false,
            },
            _ => false,
        }
    }

    /// Hands the job to `worker`: the lease runs for `lease_duration` from
    /// `now`, and one more attempt is counted.
    pub(crate) fn lease_to(&mut self, worker: u64, lease_duration: u64, now: u64)
        ensures
            final(self)@ == old(self)@.leased(worker, lease_duration, now),
    {
        self.status = JobStatus::Leased;
        self.lease_owner = Some(worker);
        self.lease_expires_at = Some(add_duration(now, lease_duration));
        if self.attempts < u32::MAX {
            self.attempts = self.attempts + 1;
        }
    }

    /// Extends the lease by `extra`. A job without a lease is left as it is.
    pub(crate) fn renew(&mut self, extra: u64)
        ensures
            final(self)@ == old(self)@.renewed(extra),
    {
        match self.lease_expires_at {
            Some(t) => {
                self.lease_expires_at = Some(add_duration(t, extra));
            },
            None => {},
        }
    }

    /// Records success and ends the lease.
    pub(crate) fn complete(&mut self, now: u64)
        ensures
            final(self)@ == old(self)@.completed(now),
    {
        self.status = JobStatus::Completed;
        self.lease_owner = None;
        self.lease_expires_at = None;
        self.completed_at = Some(now);
    }

    /// Records a failed attempt and ends the lease. While attempts are left
    /// the job goes back to `Pending`, due at `retry_at`; else it is
    /// dead-lettered.
    pub(crate) fn fail(&mut self, error: String, retry_at: u64)
        ensures
            final(self)@ == old(self)@.failed(error@, retry_at),
    {
        if self.attempts >= self.max_attempts {
            self.status = JobStatus::DeadLettered;
        } else {
            self.status = JobStatus::Pending;
            self.scheduled_at = retry_at;
        }
        self.lease_owner = None;
        self.lease_expires_at = None;
        self.last_error = Some(error);
    }

    /// Records a final failure and ends the lease, whatever attempts are
    /// left.
    pub(crate) fn dead_letter(&mut self, error: String)
        ensures
            final(self)@ == old(self)@.dead_lettered(error@),
    {
        self.status = JobStatus::DeadLettered;
        self.lease_owner = None;
        self.lease_expires_at = None;
        self.last_error = Some(error);
    }

    /// Withdraws the job and ends the lease.
    pub(crate) fn cancel(&mut self)
        ensures
            final(self)@ == old(self)@.cancelled(),
    {
        self.status = JobStatus::Cancelled;
        self.lease_owner = None;
        self.lease_expires_at = None;
    }
}

} // verus!
