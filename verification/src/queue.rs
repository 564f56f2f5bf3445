//! The background job queue.
//!
//! Producers enqueue jobs into named partitions; workers claim them under a
//! lease, execute them, and report the outcome. Every operation is a single
//! atomic transition of the store, and every transition takes the current
//! time as an argument: the queue itself never reads a clock.

pub mod backoff;
pub mod error;
pub mod job;
pub mod laws;
pub mod lease_manager;
pub mod model;
pub mod reaper;
pub mod scheduler;
pub mod store;
pub mod worker;

pub use self::backoff::BackoffPolicy;
pub use self::error::{LeaseLost, QueueError, StoreUnavailable, UnknownWorker};
pub use self::job::{Job, JobStatus, JobView};
pub use self::lease_manager::{
    Action, Event, FatalPolicy, LeaseManager, ManagerView, Outcome, Phase, WorkerConfig,
};
pub use self::reaper::Liveness;
pub use self::model::{Operation, StoreView};
pub use self::store::JobStore;
pub use self::worker::{RegistryView, Worker, WorkerRegistry, WorkerStatus, WorkerView};
