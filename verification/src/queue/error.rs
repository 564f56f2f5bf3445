//! Errors of the job queue.

use vstd::prelude::*;

verus! {

/// The caller no longer holds the lease it acts under: the lease ran out and
/// the job went to someone else, or the job is gone or finished. Whatever the
/// caller computed for the job must be discarded.
#[derive(Clone, Copy, Debug, PartialEq, Eq, Structural)]
pub struct LeaseLost;

/// The worker record was removed from the registry. The worker must register
/// again before it goes on.
#[derive(Clone, Copy, Debug, PartialEq, Eq, Structural)]
pub struct UnknownWorker;

/// The store cannot take the request now. Nothing was changed; the caller
/// should retry later.
#[derive(Clone, Copy, Debug, PartialEq, Eq, Structural)]
pub struct StoreUnavailable;

/// Every way in which a call into the queue can fail.
#[derive(Clone, Copy, Debug, PartialEq, Eq, Structural)]
pub enum QueueError {
    /// See [`StoreUnavailable`].
    StoreUnavailable,
    /// See [`LeaseLost`].
    LeaseLost,
    /// See [`UnknownWorker`].
    UnknownWorker,
}

impl QueueError {
    /// Whether the same call may succeed if it is simply made again later.
    pub open spec fn transient(self) -> bool {
        self == QueueError::StoreUnavailable
    }

    /// Whether the same call may succeed if it is simply made again later.
    /// Only an unavailable store is transient: a lost lease and an unknown
    /// worker stay so however often the call is repeated.
    pub fn is_transient(&self) -> (r: bool)
        ensures
            r == self.transient(),
    {
        match self {
            QueueError::StoreUnavailable => true,
            QueueError::LeaseLost => false,
            QueueError::UnknownWorker => false,
        }
    }

    /// A short description of the error.
    pub fn message(&self) -> (s: &'static str)
        ensures
            s@ == match *self {
                QueueError::StoreUnavailable => "store unavailable"@,
                QueueError::LeaseLost => "lease lost"@,
                QueueError::UnknownWorker => "unknown worker"@,
            },
    {
        match self {
            QueueError::StoreUnavailable => "store unavailable",
            QueueError::LeaseLost => "lease lost",
            QueueError::UnknownWorker => "unknown worker",
        }
    }
}

impl From<LeaseLost> for QueueError {
    fn from(_e: LeaseLost) -> (r: QueueError) {
        QueueError::LeaseLost
    }
}

impl vstd::std_specs::convert::FromSpecImpl<LeaseLost> for QueueError {
    open spec fn obeys_from_spec() -> bool {
        true
    }

    open spec fn from_spec(_e: LeaseLost) -> QueueError {
        QueueError::LeaseLost
    }
}

impl From<UnknownWorker> for QueueError {
    fn from(_e: UnknownWorker) -> (r: QueueError) {
        QueueError::UnknownWorker
    }
}

impl vstd::std_specs::convert::FromSpecImpl<UnknownWorker> for QueueError {
    open spec fn obeys_from_spec() -> bool {
        true
    }

    open spec fn from_spec(_e: UnknownWorker) -> QueueError {
        QueueError::UnknownWorker
    }
}

impl From<StoreUnavailable> for QueueError {
    fn from(_e: StoreUnavailable) -> (r: QueueError) {
        QueueError::StoreUnavailable
    }
}

impl vstd::std_specs::convert::FromSpecImpl<StoreUnavailable> for QueueError {
    open spec fn obeys_from_spec() -> bool {
        true
    }

    open spec fn from_spec(_e: StoreUnavailable) -> QueueError {
        QueueError::StoreUnavailable
    }
}

} // verus!
