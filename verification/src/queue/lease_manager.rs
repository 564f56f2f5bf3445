//! The worker's side of the queue: the loop that claims jobs, has them
//! executed, and reports what came of them.
//!
//! The loop itself waits: for the poll interval, for the store, for the
//! executor. Waiting is not done here. [`LeaseManager::step`] takes what has
//! just happened and says what to do next; the caller does it and comes back
//! with the next event. The loop has no end: it runs as long as the process.

use vstd::prelude::*;
use super::error::{QueueError, StoreUnavailable};
use super::job::{add_duration, job_views, time_after, Job, JobView};

verus! {

/// What the executor made of a job.
#[derive(Debug, PartialEq, Eq)]
pub enum Outcome {
    Success,
    /// The job failed and may succeed if tried again.
    Retryable(String),
    /// The job failed and will fail again however often it is tried.
    Fatal(String),
}

/// What an [`Outcome`] is, as a mathematical value.
pub enum OutcomeView {
    Success,
    Retryable(Seq<char>),
    Fatal(Seq<char>),
}

impl View for Outcome {
    type V = OutcomeView;

    open spec fn view(&self) -> OutcomeView {
        match self {
            Outcome::Success => OutcomeView::Success,
            Outcome::Retryable(e) => OutcomeView::Retryable(e@),
            Outcome::Fatal(e) => OutcomeView::Fatal(e@),
        }
    }
}

/// What becomes of a job whose executor reports a fatal failure.
#[derive(Clone, Copy, Debug, PartialEq, Eq, Structural)]
pub enum FatalPolicy {
    /// The job is dead-lettered at once, whatever attempts are left.
    DeadLetter,
    /// The job is retried like any other failed job, until its attempts are
    /// used up.
    Retry,
}

/// How a worker works.
#[derive(Debug, PartialEq, Eq)]
pub struct WorkerConfig {
    pub worker_id: u64,
    /// The partition that the worker serves.
    pub queue_name: String,
    /// How many jobs the worker claims at once.
    pub batch_size: usize,
    /// How long a lease runs when it is given or renewed.
    pub lease_duration: u64,
    /// How long the worker sleeps when it has nothing to do.
    pub poll_interval: u64,
    /// A lease is renewed when no more than this is left of it.
    pub renew_margin: u64,
    pub fatal_policy: FatalPolicy,
}

/// What a [`WorkerConfig`] is, as a mathematical value.
pub struct ConfigView {
    pub worker_id: u64,
    pub queue_name: Seq<char>,
    pub batch_size: usize,
    pub lease_duration: u64,
    pub poll_interval: u64,
    pub renew_margin: u64,
    pub fatal_policy: FatalPolicy,
}

impl View for WorkerConfig {
    type V = ConfigView;

    open spec fn view(&self) -> ConfigView {
        ConfigView {
            worker_id: self.worker_id,
            queue_name: self.queue_name@,
            batch_size: self.batch_size,
            lease_duration: self.lease_duration,
            poll_interval: self.poll_interval,
            renew_margin: self.renew_margin,
            fatal_policy: self.fatal_policy,
        }
    }
}

/// Where the loop stands.
#[derive(Clone, Copy, Debug, PartialEq, Eq, Structural)]
pub enum Phase {
    /// Asleep until the poll interval is over or someone wakes the worker.
    Idle,
    /// Waiting for the store to answer a claim.
    Claiming,
    /// Waiting for the executor to finish the current job.
    Executing,
    /// Waiting for the store to take the report on the current job.
    Reporting,
}

/// What has just happened.
#[derive(Debug, PartialEq, Eq)]
pub enum Event {
    /// The sleep is over, or the worker was woken early.
    Woken,
    /// The store answered the claim.
    Claimed(Result<Vec<Job>, StoreUnavailable>),
    /// The executor is still at work, and it is `now`.
    Tick { now: u64 },
    /// The store answered the renewal.
    Renewed(Result<(), QueueError>),
    /// The executor is done with the current job.
    Executed(Outcome),
    /// The current job was withdrawn by its producer, and the executor has
    /// been told to stop.
    Withdrawn,
    /// The store answered the report.
    Reported(Result<(), QueueError>),
}

/// What an [`Event`] is, as a mathematical value.
pub enum EventView {
    Woken,
    Claimed(Result<Seq<JobView>, StoreUnavailable>),
    Tick { now: u64 },
    Renewed(Result<(), QueueError>),
    Executed(OutcomeView),
    Withdrawn,
    Reported(Result<(), QueueError>),
}

impl View for Event {
    type V = EventView;

    open spec fn view(&self) -> EventView {
        match self {
            Event::Woken => EventView::Woken,
            Event::Claimed(Ok(jobs)) => EventView::Claimed(Ok(job_views(jobs@))),
            Event::Claimed(Err(e)) => EventView::Claimed(Err(*e)),
            Event::Tick { now } => EventView::Tick { now: *now },
            Event::Renewed(r) => EventView::Renewed(*r),
            Event::Executed(o) => EventView::Executed(o@),
            Event::Withdrawn => EventView::Withdrawn,
            Event::Reported(r) => EventView::Reported(*r),
        }
    }
}

/// What to do next.
#[derive(Debug, PartialEq, Eq)]
pub enum Action {
    /// Sleep for `duration`, or until woken; then come back with `Woken`.
    Sleep { duration: u64 },
    /// Claim jobs from the store; come back with `Claimed`.
    Claim { queue_name: String, worker_id: u64, batch_size: usize, lease_duration: u64 },
    /// Hand the job to the executor, which should be done by `deadline`, the
    /// end of the lease. While it runs come back with `Tick` now and then,
    /// with `Executed` when it is done, and with `Withdrawn` if the job turns
    /// out to be cancelled.
    Execute { job: Job, deadline: Option<u64> },
    /// Let the executor go on. Come back as after `Execute`.
    Continue,
    /// Extend the lease on the current job; come back with `Renewed`.
    Renew { job_id: u64, worker_id: u64, extra_duration: u64 },
    /// Report success to the store; come back with `Reported`.
    Complete { job_id: u64, worker_id: u64 },
    /// Report a failed attempt to the store; come back with `Reported`.
    Fail { job_id: u64, worker_id: u64, error: String },
    /// Report a final failure to the store; come back with `Reported`.
    DeadLetter { job_id: u64, worker_id: u64, error: String },
}

/// What an [`Action`] is, as a mathematical value.
pub enum ActionView {
    Sleep { duration: u64 },
    Claim { queue_name: Seq<char>, worker_id: u64, batch_size: usize, lease_duration: u64 },
    Execute { job: JobView, deadline: Option<u64> },
    Continue,
    Renew { job_id: u64, worker_id: u64, extra_duration: u64 },
    Complete { job_id: u64, worker_id: u64 },
    Fail { job_id: u64, worker_id: u64, error: Seq<char> },
    DeadLetter { job_id: u64, worker_id: u64, error: Seq<char> },
}

impl View for Action {
    type V = ActionView;

    open spec fn view(&self) -> ActionView {
        match self {
            Action::Sleep { duration } => ActionView::Sleep { duration: *duration },
            Action::Claim { queue_name, worker_id, batch_size, lease_duration } => ActionView::Claim {
                queue_name: queue_name@,
                worker_id: *worker_id,
                batch_size: *batch_size,
                lease_duration: *lease_duration,
            },
            Action::Execute { job, deadline } => ActionView::Execute {
                job: job@,
                deadline: *deadline,
            },
            Action::Continue => ActionView::Continue,
            Action::Renew { job_id, worker_id, extra_duration } => ActionView::Renew {
                job_id: *job_id,
                worker_id: *worker_id,
                extra_duration: *extra_duration,
            },
            Action::Complete { job_id, worker_id } => ActionView::Complete {
                job_id: *job_id,
                worker_id: *worker_id,
            },
            Action::Fail { job_id, worker_id, error } => ActionView::Fail {
                job_id: *job_id,
                worker_id: *worker_id,
                error: error@,
            },
            Action::DeadLetter { job_id, worker_id, error } => ActionView::DeadLetter {
                job_id: *job_id,
                worker_id: *worker_id,
                error: error@,
            },
        }
    }
}

/// What a lease manager is: its settings, where the loop stands, the job in
/// hand, and the claimed jobs that wait for their turn.
pub struct ManagerView {
    pub config: ConfigView,
    pub phase: Phase,
    pub current: Option<JobView>,
    pub backlog: Seq<JobView>,
}

impl ManagerView {
    /// A job is in hand exactly while the loop executes or reports, and jobs
    /// wait only then.
    pub open spec fn wf(self) -> bool {
        match self.phase {
            Phase::Idle | Phase::Claiming => self.current is None && self.backlog.len() == 0,
            Phase::Executing | Phase::Reporting => self.current is Some,
        }
    }

    /// A manager that is about to start.
    pub open spec fn start(config: ConfigView) -> ManagerView {
        ManagerView { config, phase: Phase::Idle, current: None, backlog: Seq::empty() }
    }

    /// Nothing in hand: go to sleep.
    pub open spec fn rest(self) -> (ManagerView, ActionView) {
        (
            ManagerView { phase: Phase::Idle, current: None, backlog: Seq::empty(), ..self },
            ActionView::Sleep { duration: self.config.poll_interval },
        )
    }

    /// Done with the job in hand: take the next one that waits, or go to
    /// sleep if none does.
    pub open spec fn proceed(self) -> (ManagerView, ActionView) {
        if self.backlog.len() == 0 {
            self.rest()
        } else {
            let job = self.backlog[0];
            (
                ManagerView {
                    phase: Phase::Executing,
                    current: Some(job),
                    backlog: self.backlog.remove(0),
                    ..self
                },
                ActionView::Execute { job, deadline: job.lease_expires_at },
            )
        }
    }

    /// Whether the lease that ends at `deadline` should be renewed at `now`:
    /// no more than the margin is left of it.
    pub open spec fn renewal_due(self, deadline: Option<u64>, now: u64) -> bool {
        match deadline {
            Some(end) => time_after(now, self.config.renew_margin) >= end,
            None => false,
        }
    }

    /// The report that an outcome calls for.
    pub open spec fn report(self, job_id: u64, outcome: OutcomeView) -> ActionView {
        let worker_id = self.config.worker_id;
        match outcome {
            OutcomeView::Success => ActionView::Complete { job_id, worker_id },
            OutcomeView::Retryable(error) => ActionView::Fail { job_id, worker_id, error },
            OutcomeView::Fatal(error) => match self.config.fatal_policy {
                FatalPolicy::DeadLetter => ActionView::DeadLetter { job_id, worker_id, error },
                FatalPolicy::Retry => ActionView::Fail { job_id, worker_id, error },
            },
        }
    }

    /// The loop: where it stands and what to do after `event`.
    ///
    /// - Idle, woken: claim.
    /// - Claiming, jobs claimed: execute the first; none claimed, or the
    ///   store unavailable: sleep.
    /// - Executing, a tick: renew the lease if it is about to end, else go
    ///   on. A renewal granted: go on, with the later deadline. The store
    ///   unavailable for the renewal: go on, and try at the next tick. The
    ///   renewal refused: the job belongs to someone else; drop it and take
    ///   the next.
    /// - Executing, executed: report the outcome.
    /// - Executing, the job withdrawn: there is nothing to report; take the
    ///   next job.
    /// - Reporting, reported: take the next job, whatever the store
    ///   answered. A lost lease is no failure of the worker: the job has
    ///   been given to someone else.
    /// - Anything else does not belong to the loop: drop what is in hand
    ///   and sleep. The leases that are dropped run out and the jobs are
    ///   claimed again.
    pub open spec fn step(self, event: EventView) -> (ManagerView, ActionView) {
        match (self.phase, event, self.current) {
            (Phase::Idle, EventView::Woken, _) => (
                ManagerView { phase: Phase::Claiming, ..self },
                ActionView::Claim {
                    queue_name: self.config.queue_name,
                    worker_id: self.config.worker_id,
                    batch_size: self.config.batch_size,
                    lease_duration: self.config.lease_duration,
                },
            ),
            (Phase::Claiming, EventView::Claimed(Ok(jobs)), _) => (ManagerView {
                backlog: jobs,
                ..self
            }).proceed(),
            (Phase::Executing, EventView::Tick { now }, Some(job)) => if self.renewal_due(
                job.lease_expires_at,
                now,
            ) {
                (
                    self,
                    ActionView::Renew {
                        job_id: job.id,
                        worker_id: self.config.worker_id,
                        extra_duration: self.config.lease_duration,
                    },
                )
            } else {
                (self, ActionView::Continue)
            },
            (Phase::Executing, EventView::Renewed(Ok(())), Some(job)) => (
                ManagerView {
                    current: Some(job.renewed(self.config.lease_duration)),
                    ..self
                },
                ActionView::Continue,
            ),
            (
                Phase::Executing,
                EventView::Renewed(Err(QueueError::StoreUnavailable)),
                Some(_),
            ) => (self, ActionView::Continue),
            (Phase::Executing, EventView::Renewed(Err(_)), Some(_)) => self.proceed(),
            (Phase::Executing, EventView::Withdrawn, Some(_)) => self.proceed(),
            (Phase::Executing, EventView::Executed(outcome), Some(job)) => (
                ManagerView { phase: Phase::Reporting, ..self },
                self.report(job.id, outcome),
            ),
            (Phase::Reporting, EventView::Reported(_), Some(_)) => self.proceed(),
            _ => self.rest(),
        }
    }
}

/// The worker's loop as a state machine.
pub struct LeaseManager {
    config: WorkerConfig,
    phase: Phase,
    current: Option<Job>,
    backlog: Vec<Job>,
}

impl View for LeaseManager {
    type V = ManagerView;

    closed spec fn view(&self) -> ManagerView {
        ManagerView {
            config: self.config@,
            phase: self.phase,
            current: match self.current {
                Some(job) => Some(job@),
                None => None,
            },
            backlog: job_views(self.backlog@),
        }
    }
}

impl LeaseManager {
    /// A manager that is about to start: idle, with nothing in hand.
    pub fn new(config: WorkerConfig) -> (manager: LeaseManager)
        ensures
            manager@ == ManagerView::start(config@),
            manager@.wf(),
    {
        let manager = LeaseManager {
            config,
            phase: Phase::Idle,
            current: None,
            backlog: Vec::new(),
        };
        assert(manager@.backlog =~= Seq::empty());
        manager
    }

    /// Where the loop stands.
    pub fn phase(&self) -> (p: Phase)
        ensures
            p == self@.phase,
    {
        self.phase
    }

    /// The id of the job in hand.
    pub fn current_job(&self) -> (id: Option<u64>)
        ensures
            id == match self@.current {
                Some(job) => Some(job.id),
                None => None,
            },
    {
        match &self.current {
            Some(job) => Some(job.id),
            None => None,
        }
    }

    /// How many claimed jobs wait for their turn.
    pub fn waiting(&self) -> (n: usize)
        ensures
            n == self@.backlog.len(),
    {
        self.backlog.len()
    }

    fn rest(&mut self) -> (action: Action)
        ensures
            (final(self)@, action@) == old(self)@.rest(),
    {
        self.phase = Phase::Idle;
        self.current = None;
        self.backlog = Vec::new();
        assert(self@.backlog =~= Seq::empty());
        Action::Sleep { duration: self.config.poll_interval }
    }

    fn proceed(&mut self) -> (action: Action)
        ensures
            (final(self)@, action@) == old(self)@.proceed(),
    {
        if self.backlog.len() == 0 {
            self.rest()
        } else {
            let job = self.backlog.remove(0);
            let copy = job.clone();
            let deadline = job.lease_expires_at;
            self.phase = Phase::Executing;
            self.current = Some(job);
            assert(self@.backlog =~= old(self)@.backlog.remove(0));
            Action::Execute { job: copy, deadline }
        }
    }

    fn is_renewal_due(&self, deadline: Option<u64>, now: u64) -> (r: bool)
        ensures
            r == self@.renewal_due(deadline, now),
    {
        match deadline {
            Some(end) => add_duration(now, self.config.renew_margin) >= end,
            None => false,
        }
    }

    fn report(&self, job_id: u64, outcome: Outcome) -> (action: Action)
        ensures
            action@ == self@.report(job_id, outcome@),
    {
        let worker_id = self.config.worker_id;
        match outcome {
            Outcome::Success => Action::Complete { job_id, worker_id },
            Outcome::Retryable(error) => Action::Fail { job_id, worker_id, error },
            Outcome::Fatal(error) => match self.config.fatal_policy {
                FatalPolicy::DeadLetter => Action::DeadLetter { job_id, worker_id, error },
                FatalPolicy::Retry => Action::Fail { job_id, worker_id, error },
            },
        }
    }

    /// Takes what has just happened and says what to do next. See
    /// [`ManagerView::step`] for the loop.
    pub fn step(&mut self, event: Event) -> (action: Action)
        requires
            old(self)@.wf(),
        ensures
            (final(self)@, action@) == old(self)@.step(event@),
            final(self)@.wf(),
    {
        match self.phase {
            Phase::Idle => match event {
                Event::Woken => {
                    self.phase = Phase::Claiming;
                    Action::Claim {
                        queue_name: self.config.queue_name.clone(),
                        worker_id: self.config.worker_id,
                        batch_size: self.config.batch_size,
                        lease_duration: self.config.lease_duration,
                    }
                },
                _ => self.rest(),
            },
            Phase::Claiming => match event {
                Event::Claimed(Ok(jobs)) => {
                    self.backlog = jobs;
                    self.proceed()
                },
                _ => self.rest(),
            },
            Phase::Executing => {
                let held: Option<(u64, Option<u64>)> = match &self.current {
                    Some(job) => Some((job.id, job.lease_expires_at)),
                    None => None,
                };
                match held {
                    None => self.rest(),
                    Some((job_id, deadline)) => match event {
                        Event::Tick { now } => {
                            if self.is_renewal_due(deadline, now) {
                                Action::Renew {
                                    job_id,
                                    worker_id: self.config.worker_id,
                                    extra_duration: self.config.lease_duration,
                                }
                            } else {
                                Action::Continue
                            }
                        },
                        Event::Renewed(Ok(())) => {
                            let extra = self.config.lease_duration;
                            match &mut self.current {
                                Some(job) => {
                                    job.renew(extra);
                                },
                                None => {},
                            }
                            Action::Continue
                        },
                        Event::Renewed(Err(QueueError::StoreUnavailable)) => Action::Continue,
                        Event::Renewed(Err(_)) => self.proceed(),
                        Event::Withdrawn => self.proceed(),
                        Event::Executed(outcome) => {
                            self.phase = Phase::Reporting;
                            self.report(job_id, outcome)
                        },
                        _ => self.rest(),
                    },
                }
            },
            Phase::Reporting => match event {
                Event::Reported(_) => {
                    if self.current.is_some() {
                        self.proceed()
                    } else {
                        self.rest()
                    }
                },
                _ => self.rest(),
            },
        }
    }
}

/// A worker reports only on the job in its hand, under its own name, and
/// only when the executor is done with it.
pub proof fn lemma_reports_own_job(m: ManagerView, event: EventView)
    requires
        m.wf(),
    ensures
        ({
            let (after, action) = m.step(event);
            &&& after.wf()
            &&& after.config == m.config
            &&& (action is Complete || action is Fail || action is DeadLetter) ==> {
                &&& m.phase == Phase::Executing
                &&& event is Executed
                &&& after.phase == Phase::Reporting
                &&& after.current == m.current
                &&& m.current is Some
                &&& action == m.report(m.current->0.id, event->Executed_0)
            }
            &&& action is Complete ==> action->Complete_worker_id == m.config.worker_id
                && action->Complete_job_id == m.current->0.id && event->Executed_0 is Success
            &&& action is DeadLetter ==> m.config.fatal_policy == FatalPolicy::DeadLetter
                && event->Executed_0 is Fatal
        }),
{
}

} // verus!
