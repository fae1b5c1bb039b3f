//! The cache facade a UI layer consumes: read a consistent snapshot at any
//! time, or enqueue a mutation and poll its handle. Nothing here blocks on
//! the network; the sync engine inside is driven separately.

use vstd::prelude::*;
use crate::engine::{HandleState, SyncEngine};
use crate::errors::RemoteError;
use crate::queue::{ApiAction, ActionStatus};
use crate::store::{snapshot_order, views_of};
use crate::task::Task;
use vstd::string::StrSliceExecFns;

verus! {

/// The local-first task cache: an in-memory model mutated immediately,
/// reconciled with the remote service in the background.
pub struct LocalCache {
    /// The credential handed to whatever performs the remote calls; the
    /// cache itself never uses it.
    pub api_token: String,
    /// The engine owning the authoritative store and the pending queue.
    pub engine: SyncEngine,
}

impl LocalCache {
    /// The cache's internal invariant.
    pub open spec fn wf(self) -> bool {
        self.engine.wf()
    }

    /// A ready cache for this credential: empty store, empty queue, cursor
    /// requesting a full snapshot.
    pub fn new(token: String) -> (r: LocalCache)
        ensures
            r.wf(),
            r.api_token == token,
            r.engine.store.tasks@ == Seq::<Task>::empty(),
            r.engine.store.sync_token@ == "*"@,
            r.engine.pending.queue@.len() == 0,
            r.engine.halted == false,
            r.engine.next_handle == 0,
            r.engine.outcomes@.len() == 0,
    {
        LocalCache { api_token: token, engine: SyncEngine::new() }
    }

    /// Returns a read-consistent copy of the confirmed tasks, sorted by
    /// priority descending with ties in server order. Never blocks on the
    /// network.
    pub fn get_tasks(&self) -> (r: Vec<Task>)
        ensures
            views_of(r@) == views_of(snapshot_order(self.engine.store.tasks@)),
    {
        self.engine.store.snapshot()
    }

    /// Lifts any credential halt and enqueues a full resync: when its fetch
    /// succeeds, the store's contents are replaced wholesale. Returns the
    /// action's handle.
    pub fn force_sync(&mut self) -> (h: u64)
        requires
            old(self).wf(),
            old(self).engine.next_handle < u64::MAX,
        ensures
            final(self).wf(),
            final(self).api_token == old(self).api_token,
            h == old(self).engine.next_handle,
            final(self).engine.next_handle == old(self).engine.next_handle + 1,
            final(self).engine.halted == false,
            final(self).engine.store == old(self).engine.store,
            final(self).engine.outcomes == old(self).engine.outcomes,
            final(self).engine.pending.queue@.len() == old(self).engine.pending.queue@.len() + 1,
            final(self).engine.pending.queue@.take(old(self).engine.pending.queue@.len() as int)
                == old(self).engine.pending.queue@,
            final(self).engine.pending.queue@.last().kind is FullSync,
            final(self).engine.pending.queue@.last().target is None,
            final(self).engine.pending.queue@.last().status is Queued,
            final(self).engine.pending.queue@.last().attempt == 0,
            final(self).engine.pending.queue@.last().handle == h,
    {
        self.engine.resume();
        self.engine.enqueue_action(ApiAction::FullSync, None)
    }

    /// Enqueues an incremental sync from the current cursor. Returns the
    /// action's handle.
    pub fn refresh(&mut self) -> (h: u64)
        requires
            old(self).wf(),
            old(self).engine.next_handle < u64::MAX,
        ensures
            final(self).wf(),
            final(self).api_token == old(self).api_token,
            h == old(self).engine.next_handle,
            final(self).engine.next_handle == old(self).engine.next_handle + 1,
            final(self).engine.halted == old(self).engine.halted,
            final(self).engine.store == old(self).engine.store,
            final(self).engine.outcomes == old(self).engine.outcomes,
            final(self).engine.pending.queue@.len() == old(self).engine.pending.queue@.len() + 1,
            final(self).engine.pending.queue@.take(old(self).engine.pending.queue@.len() as int)
                == old(self).engine.pending.queue@,
            final(self).engine.pending.queue@.last().kind is DeltaSync,
            final(self).engine.pending.queue@.last().target is None,
            final(self).engine.pending.queue@.last().status is Queued,
            final(self).engine.pending.queue@.last().attempt == 0,
            final(self).engine.pending.queue@.last().handle == h,
    {
        self.engine.enqueue_action(ApiAction::DeltaSync, None)
    }

    /// Enqueues creating a task from quick-add shorthand text. Returns the
    /// action's handle; the new task appears in the store when the handle
    /// resolves.
    pub fn add_task(&mut self, quick_add: String) -> (h: u64)
        requires
            old(self).wf(),
            old(self).engine.next_handle < u64::MAX,
        ensures
            final(self).wf(),
            final(self).api_token == old(self).api_token,
            h == old(self).engine.next_handle,
            final(self).engine.next_handle == old(self).engine.next_handle + 1,
            final(self).engine.halted == old(self).engine.halted,
            final(self).engine.store == old(self).engine.store,
            final(self).engine.outcomes == old(self).engine.outcomes,
            final(self).engine.pending.queue@.len() == old(self).engine.pending.queue@.len() + 1,
            final(self).engine.pending.queue@.take(old(self).engine.pending.queue@.len() as int)
                == old(self).engine.pending.queue@,
            final(self).engine.pending.queue@.last().kind == ApiAction::QuickAdd(quick_add),
            final(self).engine.pending.queue@.last().target is None,
            final(self).engine.pending.queue@.last().status is Queued,
            final(self).engine.pending.queue@.last().attempt == 0,
            final(self).engine.pending.queue@.last().handle == h,
            final(self).engine.pending.queue@.last().token@.len() == 36,
    {
        self.engine.enqueue_action(ApiAction::QuickAdd(quick_add), None)
    }

    /// Enqueues completing the given task, keyed by its id. Rejected up front —
    /// with nothing enqueued — when the task has no id; otherwise returns
    /// the action's handle, and the task leaves the store when the handle
    /// resolves.
    pub fn complete_task(&mut self, task: Task) -> (r: Result<u64, RemoteError>)
        requires
            old(self).wf(),
            old(self).engine.next_handle < u64::MAX,
        ensures
            final(self).wf(),
            final(self).api_token == old(self).api_token,
            task.id@.len() == 0 ==> r == Err::<u64, RemoteError>(RemoteError::BadRequest)
                && *final(self) == *old(self),
            task.id@.len() > 0 ==> {
                &&& r == Ok::<u64, RemoteError>(old(self).engine.next_handle)
                &&& final(self).engine.next_handle == old(self).engine.next_handle + 1
                &&& final(self).engine.halted == old(self).engine.halted
                &&& final(self).engine.store == old(self).engine.store
                &&& final(self).engine.outcomes == old(self).engine.outcomes
                &&& final(self).engine.pending.queue@.len() == old(self).engine.pending.queue@.len() + 1
                &&& final(self).engine.pending.queue@.take(
                    old(self).engine.pending.queue@.len() as int,
                ) == old(self).engine.pending.queue@
                &&& final(self).engine.pending.queue@.last().kind is Complete
                &&& final(self).engine.pending.queue@.last().target == Some(task.id)
                &&& final(self).engine.pending.queue@.last().status is Queued
                &&& final(self).engine.pending.queue@.last().attempt == 0
                &&& final(self).engine.pending.queue@.last().token@.len() == 36
            },
    {
        if task.id.as_str().unicode_len() == 0 {
            return Err(RemoteError::BadRequest);
        }
        let h = self.engine.enqueue_action(ApiAction::Complete, Some(task.id));
        Ok(h)
    }

    /// Enqueues overwriting the task with this one. Rejected up front —
    /// with nothing enqueued — when the store would not accept the task;
    /// otherwise returns the action's handle, and the store holds the
    /// edited task when the handle resolves.
    pub fn edit_task(&mut self, task: Task) -> (r: Result<u64, RemoteError>)
        requires
            old(self).wf(),
            old(self).engine.next_handle < u64::MAX,
        ensures
            final(self).wf(),
            final(self).api_token == old(self).api_token,
            !task.valid() ==> r == Err::<u64, RemoteError>(RemoteError::BadRequest) && *final(self) == *old(self),
            task.valid() ==> {
                &&& r == Ok::<u64, RemoteError>(old(self).engine.next_handle)
                &&& final(self).engine.next_handle == old(self).engine.next_handle + 1
                &&& final(self).engine.halted == old(self).engine.halted
                &&& final(self).engine.store == old(self).engine.store
                &&& final(self).engine.outcomes == old(self).engine.outcomes
                &&& final(self).engine.pending.queue@.len() == old(self).engine.pending.queue@.len() + 1
                &&& final(self).engine.pending.queue@.take(
                    old(self).engine.pending.queue@.len() as int,
                ) == old(self).engine.pending.queue@
                &&& final(self).engine.pending.queue@.last().kind == ApiAction::Edit(task)
                &&& (final(self).engine.pending.queue@.last().target matches Some(id) && id@
                    == task.id@)
                &&& final(self).engine.pending.queue@.last().status is Queued
                &&& final(self).engine.pending.queue@.last().attempt == 0
                &&& final(self).engine.pending.queue@.last().token@.len() == 36
            },
    {
        if !task.is_valid() {
            return Err(RemoteError::BadRequest);
        }
        let id = task.id.clone();
        let h = self.engine.enqueue_action(ApiAction::Edit(task), Some(id));
        Ok(h)
    }

    /// Reports where the action behind this handle stands.
    pub fn poll(&self, handle: u64) -> (r: HandleState)
        requires
            self.wf(),
        ensures
            r == self.engine.handle_state_spec(handle),
    {
        self.engine.poll(handle)
    }
}

} // verus!
