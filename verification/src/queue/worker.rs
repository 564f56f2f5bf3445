//! The worker registry: who is working, and who has fallen silent.

use vstd::prelude::*;
use super::error::{StoreUnavailable, UnknownWorker};
use super::store::JobStore;

verus! {

/// Whether a worker is thought to be alive.
#[derive(Clone, Copy, Debug, PartialEq, Eq, Structural)]
pub enum WorkerStatus {
    /// The worker was heard of recently enough.
    Active,
    /// The reaper found the last heartbeat too old.
    Dead,
}

/// A worker process, as the registry knows it.
#[derive(Debug, PartialEq, Eq)]
pub struct Worker {
    /// Given by the registry at registration.
    pub id: u64,
    pub registered_at: u64,
    pub last_heartbeat_at: u64,
    pub status: WorkerStatus,
    /// Host, version and the like. The queue never looks inside.
    pub metadata: String,
}

/// What a [`Worker`] is, as a mathematical value.
pub struct WorkerView {
    pub id: u64,
    pub registered_at: u64,
    pub last_heartbeat_at: u64,
    pub status: WorkerStatus,
    pub metadata: Seq<char>,
}

impl View for Worker {
    type V = WorkerView;

    open spec fn view(&self) -> WorkerView {
        WorkerView {
            id: self.id,
            registered_at: self.registered_at,
            last_heartbeat_at: self.last_heartbeat_at,
            status: self.status,
            metadata: self.metadata@,
        }
    }
}

/// The workers of a list, each as a mathematical value.
pub open spec fn worker_views(workers: Seq<Worker>) -> Seq<WorkerView> {
    workers.map_values(|w: Worker| w@)
}

impl WorkerView {
    /// A worker that registered at `now`.
    pub open spec fn fresh(id: u64, metadata: Seq<char>, now: u64) -> WorkerView {
        WorkerView {
            id,
            registered_at: now,
            last_heartbeat_at: now,
            status: WorkerStatus::Active,
            metadata,
        }
    }

    /// Whether the last heartbeat is older than `threshold`.
    pub open spec fn silent_since(self, threshold: u64) -> bool {
        self.last_heartbeat_at < threshold
    }

    /// The worker after a heartbeat at `now`.
    pub open spec fn refreshed(self, now: u64) -> WorkerView {
        WorkerView { last_heartbeat_at: now, status: WorkerStatus::Active, ..self }
    }

    /// The worker, marked dead.
    pub open spec fn marked_dead(self) -> WorkerView {
        WorkerView { status: WorkerStatus::Dead, ..self }
    }
}

impl Clone for Worker {
    fn clone(&self) -> (r: Worker)
        ensures
            r@ == self@,
    {
        Worker {
            id: self.id,
            registered_at: self.registered_at,
            last_heartbeat_at: self.last_heartbeat_at,
            status: self.status,
            metadata: self.metadata.clone(),
        }
    }
}

impl Worker {
    /// Whether the last heartbeat is older than `threshold`.
    pub fn is_silent_since(&self, threshold: u64) -> (r: bool)
        ensures
            r == self@.silent_since(threshold),
    {
        self.last_heartbeat_at < threshold
    }
}

/// What a worker registry is: its workers in the order in which they
/// registered, and the id that the next worker gets.
pub struct RegistryView {
    pub workers: Seq<WorkerView>,
    pub next_id: u64,
}

impl RegistryView {
    /// Ids grow along the sequence and lie below `next_id`. In particular no
    /// two workers share an id.
    pub open spec fn wf(self) -> bool {
        &&& forall|i: int|
            0 <= i < self.workers.len() ==> (#[trigger] self.workers[i]).id < self.next_id
        &&& forall|i: int, j: int|
            0 <= i < j < self.workers.len() ==> (#[trigger] self.workers[i]).id < (
            #[trigger] self.workers[j]).id
    }

    /// A registry without workers.
    pub open spec fn empty() -> RegistryView {
        RegistryView { workers: Seq::empty(), next_id: 0 }
    }

    /// Whether a worker with this id is registered.
    pub open spec fn contains(self, id: u64) -> bool {
        exists|i: int| 0 <= i < self.workers.len() && (#[trigger] self.workers[i]).id == id
    }

    /// The ids are used up.
    pub open spec fn full(self) -> bool {
        self.next_id == u64::MAX
    }

    /// The registry after a worker registered at `now`.
    pub open spec fn registered(self, metadata: Seq<char>, now: u64) -> RegistryView {
        RegistryView {
            workers: self.workers.push(WorkerView::fresh(self.next_id, metadata, now)),
            next_id: (self.next_id + 1) as u64,
        }
    }

    /// The registry after a heartbeat of worker `id` at `now`.
    pub open spec fn with_heartbeat(self, id: u64, now: u64) -> RegistryView {
        RegistryView {
            workers: Seq::new(
                self.workers.len(),
                |i: int|
                    if self.workers[i].id == id {
                        self.workers[i].refreshed(now)
                    } else {
                        self.workers[i]
                    },
            ),
            ..self
        }
    }

    /// The workers whose last heartbeat is older than `threshold`.
    pub open spec fn dead(self, threshold: u64) -> Seq<WorkerView> {
        self.workers.filter(|w: WorkerView| w.silent_since(threshold))
    }

    /// The registry without worker `id`.
    pub open spec fn without(self, id: u64) -> RegistryView {
        RegistryView { workers: self.workers.filter(|w: WorkerView| w.id != id), ..self }
    }

    /// Whether the reaper may remove the worker: it has fallen silent and no
    /// job of `store` is leased to it.
    pub open spec fn purgeable(w: WorkerView, store: super::model::StoreView, threshold: u64) -> bool {
        w.silent_since(threshold) && !store.has_lease_of(w.id)
    }

    /// The registry after the reaper went through it: silent workers that no
    /// lease refers to are gone, and the other silent ones are marked dead.
    pub open spec fn reaped(self, store: super::model::StoreView, threshold: u64) -> RegistryView {
        RegistryView {
            workers: self.workers.filter(
                |w: WorkerView| !Self::purgeable(w, store, threshold),
            ).map_values(
                |w: WorkerView|
                    if w.silent_since(threshold) {
                        w.marked_dead()
                    } else {
                        w
                    },
            ),
            ..self
        }
    }

    /// The ids of the workers that the reaper removes.
    pub open spec fn purged(self, store: super::model::StoreView, threshold: u64) -> Seq<u64> {
        self.workers.filter(|w: WorkerView| Self::purgeable(w, store, threshold)).map_values(
            |w: WorkerView| w.id,
        )
    }
}

/// Keeping the workers that satisfy `pred` keeps their ids in order.
proof fn lemma_filter_keeps_order(
    workers: Seq<WorkerView>,
    pred: spec_fn(WorkerView) -> bool,
    bound: u64,
)
    requires
        (RegistryView { workers, next_id: bound }).wf(),
    ensures
        (RegistryView { workers: workers.filter(pred), next_id: bound }).wf(),
        forall|k: int|
            0 <= k < workers.filter(pred).len() ==> workers.contains(
                #[trigger] workers.filter(pred)[k],
            ) && pred(workers.filter(pred)[k]),
        workers.len() > 0 && workers.filter(pred).len() > 0 ==> workers.filter(pred).last().id
            <= workers.last().id,
    decreases workers.len(),
{
    reveal(Seq::filter);
    if workers.len() > 0 {
        let front = workers.drop_last();
        lemma_filter_keeps_order(front, pred, bound);
        let kept = front.filter(pred);
        assert forall|k: int| 0 <= k < kept.len() implies workers.contains(#[trigger] kept[k])
            && kept[k].id < workers.last().id by {
            assert(front.contains(kept[k]));
            let i = choose|i: int| 0 <= i < front.len() && front[i] == kept[k];
            assert(workers[i] == kept[k]);
        }
        if pred(workers.last()) {
            assert(workers[workers.len() - 1] == workers.last());
        }
    }
}

/// Without the worker at place `at`, the list is the list of all workers
/// with another id.
proof fn lemma_without(r: RegistryView, at: int)
    requires
        r.wf(),
        0 <= at < r.workers.len(),
    ensures
        r.without(r.workers[at].id).workers == r.workers.remove(at),
    decreases r.workers.len(),
{
    reveal(Seq::filter);
    let id = r.workers[at].id;
    let pred = |w: WorkerView| w.id != id;
    let front = r.workers.drop_last();
    let last = r.workers.last();
    if at == r.workers.len() - 1 {
        lemma_filter_all(front, pred);
        assert(r.workers.remove(at) =~= front);
    } else {
        let shorter = RegistryView { workers: front, ..r };
        assert(front[at] == r.workers[at]);
        lemma_without(shorter, at);
        assert(r.workers[at].id < last.id);
        assert(r.workers.remove(at) =~= front.remove(at).push(last));
    }
}

/// A list of which every member satisfies `pred` is kept whole.
proof fn lemma_filter_all(workers: Seq<WorkerView>, pred: spec_fn(WorkerView) -> bool)
    requires
        forall|i: int| 0 <= i < workers.len() ==> pred(#[trigger] workers[i]),
    ensures
        workers.filter(pred) == workers,
    decreases workers.len(),
{
    reveal(Seq::filter);
    if workers.len() > 0 {
        lemma_filter_all(workers.drop_last(), pred);
        assert(workers.drop_last().push(workers.last()) =~= workers);
    }
}

/// The record of every worker.
///
/// A registry is well-formed (see [`RegistryView::wf`]) when it is made and
/// stays so under every method.
pub struct WorkerRegistry {
    workers: Vec<Worker>,
    next_id: u64,
}

impl View for WorkerRegistry {
    type V = RegistryView;

    closed spec fn view(&self) -> RegistryView {
        RegistryView { workers: worker_views(self.workers@), next_id: self.next_id }
    }
}

impl WorkerRegistry {
    /// A registry without workers.
    pub fn new() -> (registry: WorkerRegistry)
        ensures
            registry@ == RegistryView::empty(),
            registry@.wf(),
    {
        let registry = WorkerRegistry { workers: Vec::new(), next_id: 0 };
        assert(registry@.workers =~= Seq::empty());
        registry
    }

    /// A registry without workers whose first worker gets the id
    /// `first_id`: for a registry that takes over where another left off.
    pub fn starting_at(first_id: u64) -> (registry: WorkerRegistry)
        ensures
            registry@ == (RegistryView { workers: Seq::empty(), next_id: first_id }),
            registry@.wf(),
    {
        let registry = WorkerRegistry { workers: Vec::new(), next_id: first_id };
        assert(registry@.workers =~= Seq::empty());
        registry
    }

    /// The registry that holds `workers`, in this order, and gives the next
    /// worker the id `next_id`; `None` if that registry would not be
    /// well-formed.
    pub fn restore(workers: Vec<Worker>, next_id: u64) -> (r: Option<WorkerRegistry>)
        ensures
            match r {
                Some(registry) => registry@ == (RegistryView {
                    workers: worker_views(workers@),
                    next_id,
                }) && registry@.wf(),
                None => !(RegistryView { workers: worker_views(workers@), next_id }).wf(),
            },
    {
        let ghost view = RegistryView { workers: worker_views(workers@), next_id };
        let mut i: usize = 0;
        while i < workers.len()
            invariant
                i <= workers.len(),
                view == (RegistryView { workers: worker_views(workers@), next_id }),
                forall|k: int| 0 <= k < i ==> (#[trigger] view.workers[k]).id < next_id,
                forall|k: int, l: int|
                    0 <= k < l < i ==> (#[trigger] view.workers[k]).id < (
                    #[trigger] view.workers[l]).id,
            decreases workers.len() - i,
        {
            if workers[i].id >= next_id {
                assert(!(view.workers[i as int].id < next_id));
                return None;
            }
            if i > 0 && workers[i - 1].id >= workers[i].id {
                assert(!(view.workers[i - 1].id < view.workers[i as int].id));
                return None;
            }
            assert forall|k: int| 0 <= k < i implies (#[trigger] view.workers[k]).id
                < view.workers[i as int].id by {
                if k < i - 1 {
                    assert(view.workers[k].id < view.workers[i - 1].id);
                }
            }
            i = i + 1;
        }
        Some(WorkerRegistry { workers, next_id })
    }

    /// Copies of all workers, in the order in which they registered.
    pub fn snapshot(&self) -> (workers: Vec<Worker>)
        ensures
            worker_views(workers@) == self@.workers,
    {
        let mut workers: Vec<Worker> = Vec::new();
        let mut i: usize = 0;
        while i < self.workers.len()
            invariant
                i <= self.workers.len(),
                worker_views(workers@) == self@.workers.take(i as int),
            decreases self.workers.len() - i,
        {
            let ghost before = worker_views(workers@);
            workers.push(self.workers[i].clone());
            assert(worker_views(workers@) =~= before.push(self@.workers[i as int]));
            assert(self@.workers.take(i + 1) =~= self@.workers.take(i as int).push(
                self@.workers[i as int],
            ));
            i = i + 1;
        }
        assert(self@.workers.take(i as int) =~= self@.workers);
        workers
    }

    /// The id that the next worker gets.
    pub fn next_id(&self) -> (id: u64)
        ensures
            id == self@.next_id,
    {
        self.next_id
    }

    /// How many workers are registered.
    pub fn len(&self) -> (n: usize)
        ensures
            n == self@.workers.len(),
    {
        self.workers.len()
    }

    fn position(&self, worker_id: u64) -> (r: Option<usize>)
        ensures
            match r {
                Some(i) => i < self@.workers.len() && self@.workers[i as int].id == worker_id,
                None => !self@.contains(worker_id),
            },
    {
        let mut i: usize = 0;
        while i < self.workers.len()
            invariant
                i <= self.workers.len(),
                forall|k: int| 0 <= k < i ==> (#[trigger] self@.workers[k]).id != worker_id,
            decreases self.workers.len() - i,
        {
            if self.workers[i].id == worker_id {
                return Some(i);
            }
            i = i + 1;
        }
        None
    }

    /// Whether a worker with this id is registered.
    pub fn contains(&self, worker_id: u64) -> (r: bool)
        ensures
            r == self@.contains(worker_id),
    {
        self.position(worker_id).is_some()
    }

    /// Registers a worker at time `now` and returns its record. The worker
    /// starts `Active`, with its first heartbeat at `now`.
    ///
    /// Fails only when the ids are used up; the registry is then unchanged.
    pub fn register(&mut self, metadata: &str, now: u64) -> (r: Result<Worker, StoreUnavailable>)
        requires
            old(self)@.wf(),
        ensures
            match r {
                Ok(worker) => {
                    &&& !old(self)@.full()
                    &&& final(self)@ == old(self)@.registered(metadata@, now)
                    &&& worker@ == WorkerView::fresh(old(self)@.next_id, metadata@, now)
                },
                Err(_) => old(self)@.full() && final(self)@ == old(self)@,
            },
            final(self)@.wf(),
    {
        if self.next_id == u64::MAX {
            return Err(StoreUnavailable);
        }
        let id = self.next_id;
        let worker = Worker {
            id,
            registered_at: now,
            last_heartbeat_at: now,
            status: WorkerStatus::Active,
            metadata: metadata.to_owned(),
        };
        let copy = worker.clone();
        self.next_id = id + 1;
        self.workers.push(worker);
        assert(self@.workers =~= old(self)@.registered(metadata@, now).workers);
        Ok(copy)
    }

    /// Records a heartbeat of the worker at time `now`: the worker is
    /// `Active` again, whatever the reaper thought of it.
    ///
    /// Fails, and changes nothing, when no such worker is registered: the
    /// record was purged, and the worker must register again.
    pub fn heartbeat(&mut self, worker_id: u64, now: u64) -> (r: Result<(), UnknownWorker>)
        requires
            old(self)@.wf(),
        ensures
            r is Ok <==> old(self)@.contains(worker_id),
            r is Err ==> final(self)@ == old(self)@,
            final(self)@ == old(self)@.with_heartbeat(worker_id, now),
            final(self)@.wf(),
    {
        match self.position(worker_id) {
            Some(i) => {
                self.workers[i].last_heartbeat_at = now;
                self.workers[i].status = WorkerStatus::Active;
                assert(self@.workers =~= old(self)@.with_heartbeat(worker_id, now).workers);
                Ok(())
            },
            None => {
                assert(self@.workers =~= old(self)@.with_heartbeat(worker_id, now).workers);
                Err(UnknownWorker)
            },
        }
    }

    /// Copies of the workers whose last heartbeat is older than `threshold`,
    /// in the order in which they registered.
    pub fn list_dead(&self, threshold: u64) -> (dead: Vec<Worker>)
        ensures
            worker_views(dead@) == self@.dead(threshold),
    {
        let ghost pred = |w: WorkerView| w.silent_since(threshold);
        let mut dead: Vec<Worker> = Vec::new();
        let mut i: usize = 0;
        proof {
            reveal(Seq::filter);
            assert(self@.workers.take(0) =~= Seq::empty());
            assert(worker_views(dead@) =~= self@.workers.take(0).filter(pred));
        }
        while i < self.workers.len()
            invariant
                i <= self.workers.len(),
                pred == (|w: WorkerView| w.silent_since(threshold)),
                worker_views(dead@) == self@.workers.take(i as int).filter(pred),
            decreases self.workers.len() - i,
        {
            proof {
                reveal(Seq::filter);
                assert(self@.workers.take(i + 1).drop_last() =~= self@.workers.take(i as int));
            }
            let ghost before = worker_views(dead@);
            if self.workers[i].is_silent_since(threshold) {
                dead.push(self.workers[i].clone());
                assert(worker_views(dead@) =~= before.push(self@.workers[i as int]));
            }
            i = i + 1;
        }
        assert(self@.workers.take(i as int) =~= self@.workers);
        dead
    }

    /// Removes the worker's record. Leases that name the worker stay as they
    /// are: they run out and are reclaimed like any other.
    ///
    /// Returns whether a record was removed.
    pub fn deregister(&mut self, worker_id: u64) -> (removed: bool)
        requires
            old(self)@.wf(),
        ensures
            removed == old(self)@.contains(worker_id),
            final(self)@ == old(self)@.without(worker_id),
            !final(self)@.contains(worker_id),
            final(self)@.wf(),
    {
        let ghost pred = |w: WorkerView| w.id != worker_id;
        proof {
            lemma_filter_keeps_order(self@.workers, pred, self@.next_id);
        }
        match self.position(worker_id) {
            Some(i) => {
                proof {
                    lemma_without(self@, i as int);
                }
                let _gone = self.workers.remove(i);
                assert(self@.workers =~= old(self)@.workers.remove(i as int));
                true
            },
            None => {
                proof {
                    lemma_filter_all(self@.workers, pred);
                }
                false
            },
        }
    }

    /// The reaper's sweep. Every worker whose last heartbeat is older than
    /// `threshold` is dealt with: if no job of `store` is leased to it, its
    /// record is removed; else it is marked `Dead` and stays until its
    /// leases are gone. Jobs are not touched: an abandoned lease runs out
    /// and is reclaimed by the next claim.
    ///
    /// Returns the ids of the workers removed, in the order of registration.
    pub fn reap(&mut self, store: &JobStore, threshold: u64) -> (purged: Vec<u64>)
        requires
            old(self)@.wf(),
        ensures
            final(self)@ == old(self)@.reaped(store@, threshold),
            purged@ == old(self)@.purged(store@, threshold),
            final(self)@.wf(),
    {
        let ghost all = self@.workers;
        let ghost gone_pred = |w: WorkerView| RegistryView::purgeable(w, store@, threshold);
        let ghost keep_pred = |w: WorkerView| !RegistryView::purgeable(w, store@, threshold);
        let ghost mark = |w: WorkerView|
            if w.silent_since(threshold) {
                w.marked_dead()
            } else {
                w
            };
        let ghost ids = |w: WorkerView| w.id;
        let mut kept: Vec<Worker> = Vec::new();
        let mut purged: Vec<u64> = Vec::new();
        let mut i: usize = 0;
        proof {
            reveal(Seq::filter);
            assert(all.take(0) =~= Seq::empty());
            assert(worker_views(kept@) =~= all.take(0).filter(keep_pred).map_values(mark));
            assert(purged@ =~= all.take(0).filter(gone_pred).map_values(ids));
        }
        while i < self.workers.len()
            invariant
                i <= self.workers.len(),
                self@.workers == all,
                gone_pred == (|w: WorkerView| RegistryView::purgeable(w, store@, threshold)),
                keep_pred == (|w: WorkerView| !RegistryView::purgeable(w, store@, threshold)),
                mark == (|w: WorkerView|
                    if w.silent_since(threshold) {
                        w.marked_dead()
                    } else {
                        w
                    }),
                ids == (|w: WorkerView| w.id),
                worker_views(kept@) == all.take(i as int).filter(keep_pred).map_values(mark),
                purged@ == all.take(i as int).filter(gone_pred).map_values(ids),
            decreases self.workers.len() - i,
        {
            proof {
                reveal(Seq::filter);
                assert(all.take(i + 1).drop_last() =~= all.take(i as int));
            }
            let ghost kept_before = worker_views(kept@);
            let ghost purged_before = purged@;
            let silent = self.workers[i].is_silent_since(threshold);
            if silent && !store.has_lease_of(self.workers[i].id) {
                purged.push(self.workers[i].id);
                assert(purged@ =~= all.take(i + 1).filter(gone_pred).map_values(ids));
            } else {
                let mut worker = self.workers[i].clone();
                if silent {
                    worker.status = WorkerStatus::Dead;
                }
                kept.push(worker);
                assert(worker_views(kept@) =~= kept_before.push(mark(all[i as int])));
                assert(worker_views(kept@) =~= all.take(i + 1).filter(keep_pred).map_values(mark));
            }
            i = i + 1;
        }
        proof {
            assert(all.take(i as int) =~= all);
            lemma_filter_keeps_order(all, keep_pred, self@.next_id);
        }
        self.workers = kept;
        proof {
            let filtered = all.filter(keep_pred);
            assert(self@.workers == filtered.map_values(mark));
            assert forall|k: int| 0 <= k < self@.workers.len() implies (
            #[trigger] self@.workers[k]).id == filtered[k].id by {}
        }
        purged
    }
}

} // verus!
