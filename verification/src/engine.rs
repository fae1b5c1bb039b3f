//! The sync engine: drains the pending-action queue under the per-task lane
//! discipline, hands each dispatched action to the caller as a description
//! of the remote request to perform, and merges the reported results back
//! into the store.
//!
//! The engine performs no I/O itself. The driving loop asks
//! [`SyncEngine::next_dispatch`] what to send, performs the request, and
//! reports the outcome through the `on_…` methods, passing the clock in as
//! an argument.

use vstd::prelude::*;
use crate::backoff::{backoff_delay, backoff_spec, RATE_LIMIT_COOLDOWN_MS};
use crate::errors::RemoteError;
use crate::queue::{
    same_lane, kind_target_coherent, is_sync_kind, queue_wf, ready_at, retry_update,
    unique_handles, Action, ActionStatus, ApiAction, Queue,
};
use crate::store::{all_valid, seq_to_map, unique_ids, TaskStore};
use crate::task::{Task, TaskView};

verus! {

/// How a finished action ended.
#[derive(Clone, Copy, PartialEq, Eq, Structural, Debug)]
pub enum ActionOutcome {
    /// The remote service confirmed the action.
    Done,
    /// The action failed permanently with this classification.
    Failed(RemoteError),
}

/// What a caller polling a mutation handle sees.
#[derive(Clone, Copy, PartialEq, Eq, Structural, Debug)]
pub enum HandleState {
    /// Still queued, in flight, or awaiting retry.
    Pending,
    /// Confirmed.
    Done,
    /// Failed permanently with this classification.
    Failed(RemoteError),
    /// No action with this handle was ever enqueued here.
    Unknown,
}

/// The remote request the driving loop must perform for a dispatched action.
pub enum Dispatch {
    /// Fetch changes since `sync_token` (`"*"` requests a full snapshot).
    FetchDelta { sync_token: String },
    /// Create a task from quick-add text, under this idempotency token.
    QuickAddCall { text: String, token: String },
    /// Mark the task complete, under this idempotency token.
    CompleteCall { task_id: String, token: String },
    /// Overwrite the task, under this idempotency token.
    EditCall { task: Task, token: String },
}

/// The mathematical content of a [`Dispatch`].
#[verifier::ext_equal]
pub ghost enum DispatchView {
    FetchDelta { sync_token: Seq<char> },
    QuickAddCall { text: Seq<char>, token: Seq<char> },
    CompleteCall { task_id: Seq<char>, token: Seq<char> },
    EditCall { task: TaskView, token: Seq<char> },
}

impl View for Dispatch {
    type V = DispatchView;

    open spec fn view(&self) -> DispatchView {
        match self {
            Dispatch::FetchDelta { sync_token } => DispatchView::FetchDelta {
                sync_token: sync_token@,
            },
            Dispatch::QuickAddCall { text, token } => DispatchView::QuickAddCall {
                text: text@,
                token: token@,
            },
            Dispatch::CompleteCall { task_id, token } => DispatchView::CompleteCall {
                task_id: task_id@,
                token: token@,
            },
            Dispatch::EditCall { task, token } => DispatchView::EditCall {
                task: task@,
                token: token@,
            },
        }
    }
}

/// The id an action targets; empty for actions that target none.
pub open spec fn target_id_of(a: Action) -> Seq<char> {
    match a.target {
        Some(id) => id@,
        None => Seq::empty(),
    }
}

/// The request dispatched for an action, given the store's current token.
pub open spec fn dispatch_spec(a: Action, store_token: Seq<char>) -> DispatchView {
    match a.kind {
        ApiAction::FullSync => DispatchView::FetchDelta { sync_token: "*"@ },
        ApiAction::DeltaSync => DispatchView::FetchDelta { sync_token: store_token },
        ApiAction::QuickAdd(text) => DispatchView::QuickAddCall { text: text@, token: a.token@ },
        ApiAction::Complete => DispatchView::CompleteCall {
            task_id: target_id_of(a),
            token: a.token@,
        },
        ApiAction::Edit(t) => DispatchView::EditCall { task: t@, token: a.token@ },
    }
}

/// Relies on `uuid::Uuid::new_v4` and its `Display` form: a fresh random
/// version-4 UUID, rendered hyphenated as 36 ASCII characters. The value is
/// random, so nothing beyond its length is promised.
#[verifier::external_body]
fn fresh_idempotency_token() -> (r: String)
    ensures
        r@.len() == 36,
{
    uuid::Uuid::new_v4().to_string()
}

/// Handles are coherent across the queue and the outcome record: all below
/// the next fresh handle, never repeated, and never both pending and
/// resolved.
pub open spec fn handles_wf(
    q: Seq<Action>,
    outs: Seq<(u64, ActionOutcome)>,
    next: u64,
) -> bool {
    &&& forall|i: int| 0 <= i < q.len() ==> #[trigger] q[i].handle < next
    &&& forall|j: int| 0 <= j < outs.len() ==> #[trigger] outs[j].0 < next
    &&& forall|j1: int, j2: int| 0 <= j1 < j2 < outs.len() ==> outs[j1].0 != outs[j2].0
    &&& forall|i: int, j: int|
        0 <= i < q.len() && 0 <= j < outs.len() ==> #[trigger] q[i].handle != #[trigger] outs[j].0
}

/// Destroying the action at `i` and recording its outcome keeps handles
/// coherent.
proof fn lemma_handles_wf_settle(
    q: Seq<Action>,
    outs: Seq<(u64, ActionOutcome)>,
    next: u64,
    i: int,
    oc: ActionOutcome,
)
    requires
        handles_wf(q, outs, next),
        unique_handles(q),
        0 <= i < q.len(),
    ensures
        handles_wf(q.remove(i), outs.push((q[i].handle, oc)), next),
{
    let q2 = q.remove(i);
    let o2 = outs.push((q[i].handle, oc));
    assert forall|a: int| 0 <= a < q2.len() implies #[trigger] q2[a].handle < next by {
        let a0 = if a < i {
            a
        } else {
            a + 1
        };
        assert(q2[a] == q[a0]);
    }
    assert forall|a: int, b: int|
        0 <= a < q2.len() && 0 <= b < o2.len() implies #[trigger] q2[a].handle
        != #[trigger] o2[b].0 by {
        let a0 = if a < i {
            a
        } else {
            a + 1
        };
        assert(q2[a] == q[a0]);
        if b == o2.len() - 1 {
            assert(o2[b].0 == q[i].handle);
            assert(a0 != i);
        }
    }
}

/// Replacing the action at `i` with one carrying the same handle keeps
/// handles coherent.
proof fn lemma_handles_wf_update(
    q: Seq<Action>,
    outs: Seq<(u64, ActionOutcome)>,
    next: u64,
    i: int,
    a2: Action,
)
    requires
        handles_wf(q, outs, next),
        0 <= i < q.len(),
        a2.handle == q[i].handle,
    ensures
        handles_wf(q.update(i, a2), outs, next),
{
}

/// The position of the in-flight action carrying this handle, if any.
pub open spec fn inflight_index(q: Seq<Action>, h: u64) -> Option<int> {
    if exists|i: int| 0 <= i < q.len() && q[i].handle == h && q[i].status is InFlight {
        Some(choose|i: int| 0 <= i < q.len() && q[i].handle == h && q[i].status is InFlight)
    } else {
        None
    }
}

/// The orchestrator: owns the store and the pending queue, decides which
/// action to dispatch next, and applies reported outcomes.
pub struct SyncEngine {
    /// The authoritative confirmed snapshot.
    pub store: TaskStore,
    /// Not-yet-confirmed actions, in submission order.
    pub pending: Queue<Action>,
    /// Set when the remote service rejected our credentials; nothing more
    /// is dispatched until the engine is resumed.
    pub halted: bool,
    /// No dispatch before this instant: the engine-wide rate-limit cooldown.
    pub cooldown_until: u64,
    /// The handle the next enqueued action will get.
    pub next_handle: u64,
    /// The recorded outcome of every destroyed action.
    pub outcomes: Vec<(u64, ActionOutcome)>,
}

impl SyncEngine {
    /// The engine's internal invariant: store and queue are well-formed,
    /// handles never repeat, and a handle is pending or resolved, never both.
    pub open spec fn wf(self) -> bool {
        &&& self.store.wf()
        &&& queue_wf(self.pending.queue@)
        &&& handles_wf(self.pending.queue@, self.outcomes@, self.next_handle)
    }

    /// A fresh engine: empty store, empty queue, cursor requesting a full
    /// snapshot, nothing halted.
    pub fn new() -> (r: SyncEngine)
        ensures
            r.wf(),
            r.store.tasks@ == Seq::<Task>::empty(),
            r.store.sync_token@ == "*"@,
            r.pending.queue@ == Seq::<Action>::empty(),
            r.halted == false,
            r.cooldown_until == 0,
            r.next_handle == 0,
            r.outcomes@ == Seq::<(u64, ActionOutcome)>::empty(),
    {
        SyncEngine {
            store: TaskStore::new(),
            pending: Queue::new(),
            halted: false,
            cooldown_until: 0,
            next_handle: 0,
            outcomes: Vec::new(),
        }
    }

    /// Whether another action can still get a fresh handle.
    pub fn can_enqueue(&self) -> (r: bool)
        ensures
            r == (self.next_handle < u64::MAX),
    {
        self.next_handle < u64::MAX
    }

    /// Synthesizes a pending action for this request and appends it to the
    /// queue, handing back its handle. The action starts `Queued` with a
    /// fresh idempotency token and attempt count zero.
    pub fn enqueue_action(&mut self, kind: ApiAction, target: Option<String>) -> (h: u64)
        requires
            old(self).wf(),
            old(self).next_handle < u64::MAX,
            kind_target_coherent(kind, target),
        ensures
            final(self).wf(),
            h == old(self).next_handle,
            final(self).next_handle == old(self).next_handle + 1,
            final(self).pending.queue@.len() == old(self).pending.queue@.len() + 1,
            final(self).pending.queue@.take(old(self).pending.queue@.len() as int) == old(self).pending.queue@,
            final(self).pending.queue@.last().handle == h,
            final(self).pending.queue@.last().token@.len() == 36,
            final(self).pending.queue@.last().target == target,
            final(self).pending.queue@.last().kind == kind,
            final(self).pending.queue@.last().attempt == 0,
            final(self).pending.queue@.last().status is Queued,
            final(self).store == old(self).store,
            final(self).halted == old(self).halted,
            final(self).cooldown_until == old(self).cooldown_until,
            final(self).outcomes == old(self).outcomes,
    {
        let h = self.next_handle;
        self.next_handle = self.next_handle + 1;
        let token = fresh_idempotency_token();
        let action = Action { handle: h, token, target, kind, attempt: 0, status: ActionStatus::Queued };
        let ghost q0 = self.pending.queue@;
        self.pending.enqueue(action);
        proof {
            assert(self.pending.queue@.take(q0.len() as int) =~= q0);
            let q1 = self.pending.queue@;
            assert forall|i: int, j: int|
                0 <= i < j < q1.len() && q1[j].status is InFlight implies !same_lane(
                q1[i],
                q1[j],
            ) by {
                assert(q1[j] == q0[j]);
                assert(q1[i] == q0[i]);
            }
        }
        h
    }

    /// Picks the earliest dispatchable action, marks it in flight, and
    /// returns its handle with the remote request to perform. Returns
    /// nothing — and changes nothing — while the engine is halted, is
    /// cooling down after a rate limit, or has no ready action.
    pub fn next_dispatch(&mut self, now: u64) -> (r: Option<(u64, Dispatch)>)
        requires
            old(self).wf(),
        ensures
            final(self).wf(),
            final(self).store == old(self).store,
            final(self).halted == old(self).halted,
            final(self).cooldown_until == old(self).cooldown_until,
            final(self).next_handle == old(self).next_handle,
            final(self).outcomes == old(self).outcomes,
            match r {
                None => *final(self) == *old(self) && (old(self).halted || now < old(self).cooldown_until || forall|i: int| !ready_at(old(self).pending.queue@, i, now)),
                Some((h, d)) => !old(self).halted && now >= old(self).cooldown_until
                    && exists|i: int|
                    {
                        &&& #[trigger] ready_at(old(self).pending.queue@, i, now)
                        &&& forall|j: int|
                            0 <= j < i ==> !ready_at(old(self).pending.queue@, j, now)
                        &&& h == old(self).pending.queue@[i].handle
                        &&& d@ == dispatch_spec(
                            old(self).pending.queue@[i],
                            old(self).store.sync_token@,
                        )
                        &&& final(self).pending.queue@ == old(self).pending.queue@.update(
                            i,
                            Action {
                                status: ActionStatus::InFlight,
                                ..old(self).pending.queue@[i]
                            },
                        )
                    },
            },
    {
        if self.halted {
            return None;
        }
        if now < self.cooldown_until {
            return None;
        }
        let idx = match self.pending.next_ready(now) {
            None => {
                return None;
            },
            Some(i) => i,
        };
        let a = self.pending.get(idx);
        let h = a.handle;
        let d = match &a.kind {
            ApiAction::FullSync => Dispatch::FetchDelta { sync_token: String::from_str("*") },
            ApiAction::DeltaSync => Dispatch::FetchDelta {
                sync_token: self.store.sync_token.clone(),
            },
            ApiAction::QuickAdd(text) => Dispatch::QuickAddCall {
                text: text.clone(),
                token: a.token.clone(),
            },
            ApiAction::Complete => Dispatch::CompleteCall {
                task_id: match &a.target {
                    Some(id) => id.clone(),
                    None => String::new(),
                },
                token: a.token.clone(),
            },
            ApiAction::Edit(t) => Dispatch::EditCall { task: t.duplicate(), token: a.token.clone() },
        };
        proof {
            assert(d@ =~= dispatch_spec(
                old(self).pending.queue@[idx as int],
                old(self).store.sync_token@,
            ));
        }
        self.pending.mark_in_flight(idx);
        proof {
            lemma_handles_wf_update(
                old(self).pending.queue@,
                self.outcomes@,
                self.next_handle,
                idx as int,
                self.pending.queue@[idx as int],
            );
        }
        Some((h, d))
    }

    /// Checks every item, as the store demands them.
    fn all_valid_check(items: &Vec<Task>) -> (r: bool)
        ensures
            r == all_valid(items@),
    {
        let mut i: usize = 0;
        while i < items.len()
            invariant
                i <= items@.len(),
                forall|j: int| 0 <= j < i ==> items@[j].valid(),
            decreases items@.len() - i,
        {
            if !items[i].is_valid() {
                return false;
            }
            i = i + 1;
        }
        true
    }

    /// Applies the result of a confirmed sync fetch for the in-flight sync
    /// action with this handle: a full sync replaces the store's whole map
    /// with the items, a delta sync upserts them, and either sets the new
    /// token; the action is destroyed as `Done`. Only the sync action
    /// leaves the queue: actions still pending for tasks the sync touched
    /// stay queued and apply on top of the refreshed state. Items the store
    /// cannot accept fail the action as a malformed response and leave the
    /// store untouched. Reports `false` — changing nothing — when no
    /// in-flight sync action carries this handle.
    pub fn on_sync_success(&mut self, handle: u64, items: Vec<Task>, new_token: String) -> (r:
        bool)
        requires
            old(self).wf(),
        ensures
            final(self).wf(),
            final(self).halted == old(self).halted,
            final(self).cooldown_until == old(self).cooldown_until,
            final(self).next_handle == old(self).next_handle,
            ({
                let q = old(self).pending.queue@;
                match inflight_index(q, handle) {
                    None => r == false && *final(self) == *old(self),
                    Some(i) => if !is_sync_kind(q[i].kind) {
                        r == false && *final(self) == *old(self)
                    } else {
                        &&& r == true
                        &&& final(self).pending.queue@ == q.remove(i)
                        &&& if all_valid(items@) {
                            &&& final(self).outcomes@ == old(self).outcomes@.push(
                                (handle, ActionOutcome::Done),
                            )
                            &&& final(self).store.sync_token == new_token
                            &&& (q[i].kind is FullSync ==> final(self).store.map_view()
                                == seq_to_map(items@) && (unique_ids(items@) ==> final(self).store.tasks@ == items@))
                            &&& (q[i].kind is DeltaSync ==> final(self).store.map_view() == old(self).store.map_view().union_prefer_right(seq_to_map(items@)))
                        } else {
                            &&& final(self).outcomes@ == old(self).outcomes@.push(
                                (handle, ActionOutcome::Failed(RemoteError::MalformedResponse)),
                            )
                            &&& final(self).store == old(self).store
                        }
                    },
                }
            }),
    {
        let ghost q = self.pending.queue@;
        let idx = match self.pending.find_by_handle(handle) {
            None => {
                proof {
                    assert(inflight_index(q, handle) is None);
                }
                return false;
            },
            Some(i) => i,
        };
        let is_target = {
            let a = self.pending.get(idx);
            matches!(a.status, ActionStatus::InFlight) && matches!(
                a.kind,
                ApiAction::FullSync | ApiAction::DeltaSync,
            )
        };
        if !is_target {
            proof {
                lemma_inflight_index_unique(q, handle, idx as int);
            }
            return false;
        }
        proof {
            lemma_inflight_index_unique(q, handle, idx as int);
        }
        let valid = Self::all_valid_check(&items);
        let a = self.pending.remove_action(idx);
        proof {
            lemma_handles_wf_settle(
                q,
                self.outcomes@,
                self.next_handle,
                idx as int,
                if valid {
                    ActionOutcome::Done
                } else {
                    ActionOutcome::Failed(RemoteError::MalformedResponse)
                },
            );
        }
        if !valid {
            self.outcomes.push((handle, ActionOutcome::Failed(RemoteError::MalformedResponse)));
            return true;
        }
        match a.kind {
            ApiAction::FullSync => self.store.replace_all(items, new_token),
            ApiAction::DeltaSync => self.store.apply_delta(items, new_token),
            _ => {
                proof {
                    assert(false);
                }
            },
        }
        self.outcomes.push((handle, ActionOutcome::Done));
        true
    }

    /// Applies a confirmed create for the in-flight quick-add action with
    /// this handle: the returned task is upserted and the action destroyed
    /// as `Done`. A returned task the store cannot accept fails the action
    /// as a malformed response. Reports `false` — changing nothing — when no
    /// in-flight quick-add action carries this handle.
    pub fn on_quick_add_success(&mut self, handle: u64, created: Task) -> (r: bool)
        requires
            old(self).wf(),
        ensures
            final(self).wf(),
            final(self).halted == old(self).halted,
            final(self).cooldown_until == old(self).cooldown_until,
            final(self).next_handle == old(self).next_handle,
            ({
                let q = old(self).pending.queue@;
                match inflight_index(q, handle) {
                    None => r == false && *final(self) == *old(self),
                    Some(i) => if !(q[i].kind is QuickAdd) {
                        r == false && *final(self) == *old(self)
                    } else {
                        &&& r == true
                        &&& final(self).pending.queue@ == q.remove(i)
                        &&& if created.valid() {
                            &&& final(self).outcomes@ == old(self).outcomes@.push(
                                (handle, ActionOutcome::Done),
                            )
                            &&& final(self).store.map_view() == old(
                                self,
                            ).store.map_view().insert(created.id@, created)
                            &&& final(self).store.sync_token == old(self).store.sync_token
                        } else {
                            &&& final(self).outcomes@ == old(self).outcomes@.push(
                                (handle, ActionOutcome::Failed(RemoteError::MalformedResponse)),
                            )
                            &&& final(self).store == old(self).store
                        }
                    },
                }
            }),
    {
        let ghost q = self.pending.queue@;
        let idx = match self.pending.find_by_handle(handle) {
            None => {
                proof {
                    assert(inflight_index(q, handle) is None);
                }
                return false;
            },
            Some(i) => i,
        };
        let is_target = {
            let a = self.pending.get(idx);
            matches!(a.status, ActionStatus::InFlight) && matches!(a.kind, ApiAction::QuickAdd(_))
        };
        proof {
            lemma_inflight_index_unique(q, handle, idx as int);
        }
        if !is_target {
            return false;
        }
        let valid = created.is_valid();
        let _a = self.pending.remove_action(idx);
        proof {
            lemma_handles_wf_settle(
                q,
                self.outcomes@,
                self.next_handle,
                idx as int,
                if valid {
                    ActionOutcome::Done
                } else {
                    ActionOutcome::Failed(RemoteError::MalformedResponse)
                },
            );
        }
        if !valid {
            self.outcomes.push((handle, ActionOutcome::Failed(RemoteError::MalformedResponse)));
            return true;
        }
        self.store.upsert(created);
        self.outcomes.push((handle, ActionOutcome::Done));
        true
    }

    /// Applies a confirmed completion for the in-flight completion action
    /// with this handle: the target task leaves the store and the action is
    /// destroyed as `Done`. Reports `false` — changing nothing — when no
    /// in-flight completion action carries this handle.
    pub fn on_complete_success(&mut self, handle: u64) -> (r: bool)
        requires
            old(self).wf(),
        ensures
            final(self).wf(),
            final(self).halted == old(self).halted,
            final(self).cooldown_until == old(self).cooldown_until,
            final(self).next_handle == old(self).next_handle,
            ({
                let q = old(self).pending.queue@;
                match inflight_index(q, handle) {
                    None => r == false && *final(self) == *old(self),
                    Some(i) => if !(q[i].kind is Complete) {
                        r == false && *final(self) == *old(self)
                    } else {
                        &&& r == true
                        &&& final(self).pending.queue@ == q.remove(i)
                        &&& final(self).outcomes@ == old(self).outcomes@.push(
                            (handle, ActionOutcome::Done),
                        )
                        &&& final(self).store.map_view() == old(self).store.map_view().remove(
                            target_id_of(q[i]),
                        )
                        &&& final(self).store.sync_token == old(self).store.sync_token
                    },
                }
            }),
    {
        let ghost q = self.pending.queue@;
        let idx = match self.pending.find_by_handle(handle) {
            None => {
                proof {
                    assert(inflight_index(q, handle) is None);
                }
                return false;
            },
            Some(i) => i,
        };
        let is_target = {
            let a = self.pending.get(idx);
            matches!(a.status, ActionStatus::InFlight) && matches!(a.kind, ApiAction::Complete)
        };
        proof {
            lemma_inflight_index_unique(q, handle, idx as int);
        }
        if !is_target {
            return false;
        }
        let a = self.pending.remove_action(idx);
        proof {
            lemma_handles_wf_settle(q, self.outcomes@, self.next_handle, idx as int,
                ActionOutcome::Done);
        }
        match a.target {
            Some(id) => self.store.remove(&id),
            None => {
                proof {
                    assert(false);
                }
            },
        }
        self.outcomes.push((handle, ActionOutcome::Done));
        true
    }

    /// Applies a confirmed edit for the in-flight edit action with this
    /// handle: the edited task is upserted and the action destroyed as
    /// `Done`. Reports `false` — changing nothing — when no in-flight edit
    /// action carries this handle.
    pub fn on_edit_success(&mut self, handle: u64) -> (r: bool)
        requires
            old(self).wf(),
        ensures
            final(self).wf(),
            final(self).halted == old(self).halted,
            final(self).cooldown_until == old(self).cooldown_until,
            final(self).next_handle == old(self).next_handle,
            ({
                let q = old(self).pending.queue@;
                match inflight_index(q, handle) {
                    None => r == false && *final(self) == *old(self),
                    Some(i) => if !(q[i].kind is Edit) {
                        r == false && *final(self) == *old(self)
                    } else {
                        &&& r == true
                        &&& final(self).pending.queue@ == q.remove(i)
                        &&& final(self).outcomes@ == old(self).outcomes@.push(
                            (handle, ActionOutcome::Done),
                        )
                        &&& (q[i].kind matches ApiAction::Edit(t) ==> final(self).store.map_view()
                            == old(self).store.map_view().insert(t.id@, t))
                        &&& final(self).store.sync_token == old(self).store.sync_token
                    },
                }
            }),
    {
        let ghost q = self.pending.queue@;
        let idx = match self.pending.find_by_handle(handle) {
            None => {
                proof {
                    assert(inflight_index(q, handle) is None);
                }
                return false;
            },
            Some(i) => i,
        };
        let is_target = {
            let a = self.pending.get(idx);
            matches!(a.status, ActionStatus::InFlight) && matches!(a.kind, ApiAction::Edit(_))
        };
        proof {
            lemma_inflight_index_unique(q, handle, idx as int);
        }
        if !is_target {
            return false;
        }
        let a = self.pending.remove_action(idx);
        proof {
            lemma_handles_wf_settle(q, self.outcomes@, self.next_handle, idx as int,
                ActionOutcome::Done);
        }
        match a.kind {
            ApiAction::Edit(t) => self.store.upsert(t),
            _ => {
                proof {
                    assert(false);
                }
            },
        }
        self.outcomes.push((handle, ActionOutcome::Done));
        true
    }

    /// Applies a failed remote call for the in-flight action with this
    /// handle. A transient failure reschedules the action — same token,
    /// attempt count up — after the exponential backoff delay; a rate limit
    /// additionally cools the whole engine down. A fatal failure destroys
    /// the action with its classification, and a credential failure halts
    /// the engine. Reports `false` — changing nothing — when no in-flight
    /// action carries this handle.
    pub fn on_failure(&mut self, handle: u64, error: RemoteError, now: u64) -> (r: bool)
        requires
            old(self).wf(),
        ensures
            final(self).wf(),
            final(self).next_handle == old(self).next_handle,
            ({
                let q = old(self).pending.queue@;
                match inflight_index(q, handle) {
                    None => r == false && *final(self) == *old(self),
                    Some(i) => {
                        &&& r == true
                        &&& final(self).store == old(self).store
                        &&& if error is RateLimited {
                            let at = saturating_add(now, RATE_LIMIT_COOLDOWN_MS);
                            &&& final(self).pending.queue@ == retry_update(q, i, at)
                            &&& final(self).cooldown_until == if old(self).cooldown_until > at {
                                old(self).cooldown_until
                            } else {
                                at
                            }
                            &&& final(self).halted == old(self).halted
                            &&& final(self).outcomes == old(self).outcomes
                        } else if error is Network || error is ServerError {
                            &&& final(self).pending.queue@ == retry_update(
                                q,
                                i,
                                saturating_add_int(now, backoff_spec(q[i].attempt as nat)),
                            )
                            &&& final(self).cooldown_until == old(self).cooldown_until
                            &&& final(self).halted == old(self).halted
                            &&& final(self).outcomes == old(self).outcomes
                        } else {
                            &&& final(self).pending.queue@ == q.remove(i)
                            &&& final(self).outcomes@ == old(self).outcomes@.push(
                                (handle, ActionOutcome::Failed(error)),
                            )
                            &&& final(self).halted == (old(self).halted || error is AuthFailed)
                            &&& final(self).cooldown_until == old(self).cooldown_until
                        }
                    },
                }
            }),
    {
        let ghost q = self.pending.queue@;
        let idx = match self.pending.find_by_handle(handle) {
            None => {
                proof {
                    assert(inflight_index(q, handle) is None);
                }
                return false;
            },
            Some(i) => i,
        };
        let in_flight = matches!(self.pending.get(idx).status, ActionStatus::InFlight);
        proof {
            lemma_inflight_index_unique(q, handle, idx as int);
        }
        if !in_flight {
            return false;
        }
        if error.is_retryable() {
            let delay: u64 = if matches!(error, RemoteError::RateLimited) {
                RATE_LIMIT_COOLDOWN_MS
            } else {
                let attempt = self.pending.get(idx).attempt;
                backoff_delay(attempt)
            };
            let next_at: u64 = if now > u64::MAX - delay {
                u64::MAX
            } else {
                now + delay
            };
            self.pending.mark_retry(idx, next_at);
            proof {
                lemma_handles_wf_update(
                    q,
                    self.outcomes@,
                    self.next_handle,
                    idx as int,
                    self.pending.queue@[idx as int],
                );
            }
            if matches!(error, RemoteError::RateLimited) {
                if next_at > self.cooldown_until {
                    self.cooldown_until = next_at;
                }
            }
            true
        } else {
            let _a = self.pending.remove_action(idx);
            proof {
                lemma_handles_wf_settle(q, self.outcomes@, self.next_handle, idx as int,
                    ActionOutcome::Failed(error));
            }
            self.outcomes.push((handle, ActionOutcome::Failed(error)));
            if matches!(error, RemoteError::AuthFailed) {
                self.halted = true;
            }
            true
        }
    }

    /// What a caller polling this handle sees.
    pub open spec fn handle_state_spec(self, h: u64) -> HandleState {
        if exists|i: int|
            0 <= i < self.pending.queue@.len() && self.pending.queue@[i].handle == h {
            HandleState::Pending
        } else if exists|j: int| 0 <= j < self.outcomes@.len() && self.outcomes@[j].0 == h {
            let j = choose|j: int| 0 <= j < self.outcomes@.len() && self.outcomes@[j].0 == h;
            match self.outcomes@[j].1 {
                ActionOutcome::Done => HandleState::Done,
                ActionOutcome::Failed(e) => HandleState::Failed(e),
            }
        } else {
            HandleState::Unknown
        }
    }

    /// Reports where the action with this handle stands: pending while it
    /// is queued, in flight or awaiting retry; its recorded outcome once it
    /// is destroyed; unknown for a handle never issued here.
    pub fn poll(&self, handle: u64) -> (r: HandleState)
        requires
            self.wf(),
        ensures
            r == self.handle_state_spec(handle),
    {
        match self.pending.find_by_handle(handle) {
            Some(_i) => HandleState::Pending,
            None => {
                let mut j: usize = 0;
                while j < self.outcomes.len()
                    invariant
                        j <= self.outcomes@.len(),
                        self.wf(),
                        forall|k: int| 0 <= k < j ==> self.outcomes@[k].0 != handle,
                        forall|i: int|
                            0 <= i < self.pending.queue@.len() ==> self.pending.queue@[i].handle
                                != handle,
                    decreases self.outcomes@.len() - j,
                {
                    if self.outcomes[j].0 == handle {
                        proof {
                            let k = choose|k: int|
                                0 <= k < self.outcomes@.len() && self.outcomes@[k].0 == handle;
                            assert(k == j as int);
                        }
                        return match self.outcomes[j].1 {
                            ActionOutcome::Done => HandleState::Done,
                            ActionOutcome::Failed(e) => HandleState::Failed(e),
                        };
                    }
                    j = j + 1;
                }
                HandleState::Unknown
            },
        }
    }

    /// Lifts a credential halt: the next dispatch may run again. Meant for
    /// after the credentials were refreshed outside the engine.
    pub fn resume(&mut self)
        ensures
            final(self).halted == false,
            final(self).store == old(self).store,
            final(self).pending == old(self).pending,
            final(self).cooldown_until == old(self).cooldown_until,
            final(self).next_handle == old(self).next_handle,
            final(self).outcomes == old(self).outcomes,
    {
        self.halted = false;
    }
}

/// `a + b`, stopping at the largest representable value.
pub open spec fn saturating_add(a: u64, b: u64) -> u64 {
    if a + b > u64::MAX {
        u64::MAX
    } else {
        (a + b) as u64
    }
}

/// `a + b` for a mathematical-integer delay, stopping at the largest
/// representable value.
pub open spec fn saturating_add_int(a: u64, b: int) -> u64 {
    if a + b > u64::MAX {
        u64::MAX
    } else {
        (a + b) as u64
    }
}

/// When the in-flight action at a found position carries the handle, it is
/// the one `inflight_index` names.
proof fn lemma_inflight_index_unique(q: Seq<Action>, h: u64, i: int)
    requires
        unique_handles(q),
        0 <= i < q.len(),
        q[i].handle == h,
    ensures
        q[i].status is InFlight ==> inflight_index(q, h) == Some(i),
        !(q[i].status is InFlight) ==> inflight_index(q, h) is None,
{
    if q[i].status is InFlight {
        let j = choose|j: int| 0 <= j < q.len() && q[j].handle == h && q[j].status is InFlight;
        assert(j == i);
    } else {
        if exists|j: int| 0 <= j < q.len() && q[j].handle == h && q[j].status is InFlight {
            let j = choose|j: int|
                0 <= j < q.len() && q[j].handle == h && q[j].status is InFlight;
            assert(j == i);
        }
    }
}

} // verus!
