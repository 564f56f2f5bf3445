//! Heartbeats and the reaper: how a worker shows that it is alive, and when
//! a silent worker counts as dead.
//!
//! Both duties are periodic, do the same whoever runs them and however
//! often, and need no leader: every worker process may run them.

use vstd::prelude::*;
use super::store::JobStore;
use super::worker::{WorkerRegistry, WorkerView};

verus! {

/// How often a worker sends a heartbeat, and after how long a silence it
/// counts as dead.
#[derive(Clone, Copy, Debug, PartialEq, Eq, Structural)]
pub struct Liveness {
    pub heartbeat_interval: u64,
    pub dead_after: u64,
}

impl Liveness {
    /// Heartbeats come more often than silence kills.
    pub open spec fn wf(self) -> bool {
        self.heartbeat_interval < self.dead_after
    }

    /// The settings, if the heartbeat interval is strictly shorter than the
    /// silence after which a worker counts as dead; `None` otherwise.
    pub fn new(heartbeat_interval: u64, dead_after: u64) -> (r: Option<Liveness>)
        ensures
            r is Some <==> heartbeat_interval < dead_after,
            r is Some ==> r->0 == (Liveness { heartbeat_interval, dead_after }) && r->0.wf(),
    {
        if heartbeat_interval < dead_after {
            Some(Liveness { heartbeat_interval, dead_after })
        } else {
            None
        }
    }

    /// At time `now`, a worker is dead if its last heartbeat is older than
    /// this.
    pub open spec fn threshold(self, now: u64) -> u64 {
        if now >= self.dead_after {
            (now - self.dead_after) as u64
        } else {
            0
        }
    }

    /// At time `now`, a worker is dead if its last heartbeat is older than
    /// this: `now - dead_after`, or the beginning of time if that lies
    /// before it.
    pub fn threshold_at(&self, now: u64) -> (t: u64)
        ensures
            t == self.threshold(now),
    {
        if now >= self.dead_after {
            now - self.dead_after
        } else {
            0
        }
    }

    /// When the heartbeat after the one at `last` is due.
    pub fn next_heartbeat_at(&self, last: u64) -> (t: u64)
        ensures
            t == super::job::time_after(last, self.heartbeat_interval),
    {
        super::job::add_duration(last, self.heartbeat_interval)
    }

    /// The reaper's sweep at time `now`; see [`WorkerRegistry::reap`].
    /// Returns the ids of the workers removed.
    pub fn sweep(&self, registry: &mut WorkerRegistry, store: &JobStore, now: u64) -> (purged: Vec<
        u64,
    >)
        requires
            old(registry)@.wf(),
        ensures
            final(registry)@ == old(registry)@.reaped(store@, self.threshold(now)),
            purged@ == old(registry)@.purged(store@, self.threshold(now)),
            final(registry)@.wf(),
    {
        registry.reap(store, self.threshold_at(now))
    }

    /// A worker that keeps its heartbeats is never taken for dead: if the
    /// last heartbeat is no older than the heartbeat interval, the worker is
    /// not silent at `now`.
    pub proof fn lemma_punctual_worker_is_alive(self, w: WorkerView, now: u64)
        requires
            self.wf(),
            w.last_heartbeat_at <= now,
            now - w.last_heartbeat_at <= self.heartbeat_interval,
        ensures
            !w.silent_since(self.threshold(now)),
    {
    }
}

} // verus!
