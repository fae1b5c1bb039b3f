//! The pending-action queue: not-yet-confirmed mutation requests in
//! submission order, drained under a per-task lane discipline.

use vstd::prelude::*;
use crate::task::Task;

verus! {

/// The kind of remote request a pending action stands for.
pub enum ApiAction {
    /// Fetch a full snapshot and replace the store.
    FullSync,
    /// Fetch the changes since the current sync token and upsert them.
    DeltaSync,
    /// Create a task from quick-add shorthand text.
    QuickAdd(String),
    /// Mark the target task complete.
    Complete,
    /// Overwrite the target task with this one.
    Edit(Task),
}

/// Where a pending action stands in its lifecycle. An action is destroyed
/// (removed from the queue, its outcome recorded) when it is confirmed or
/// fails permanently, so only the live states appear here.
#[derive(Clone, Copy, PartialEq, Eq, Structural, Debug)]
pub enum ActionStatus {
    /// Submitted, not yet dispatched.
    Queued,
    /// Dispatched to the remote service; the result is pending.
    InFlight,
    /// Failed transiently; may be dispatched again at the given time.
    Retrying(u64),
}

/// A not-yet-confirmed mutation request. The idempotency token is fixed for
/// the action's entire lifetime, including across retries, so resubmission
/// never produces a duplicate remote effect.
pub struct Action {
    /// Caller-visible identity, unique per enqueued action.
    pub handle: u64,
    /// Client-generated idempotency token sent with every (re)submission.
    pub token: String,
    /// The task this action mutates; `None` for creates and syncs.
    pub target: Option<String>,
    pub kind: ApiAction,
    /// How many times this action has been dispatched and has failed.
    pub attempt: u32,
    pub status: ActionStatus,
}

/// Whether this kind runs in the single global sync lane.
pub open spec fn is_sync_kind(k: ApiAction) -> bool {
    k is FullSync || k is DeltaSync
}

/// Two actions contend for the same lane: both are syncs (the global lane),
/// or both target the same task id. A create targets no task and no lane.
pub open spec fn same_lane(a: Action, b: Action) -> bool {
    ||| (is_sync_kind(a.kind) && is_sync_kind(b.kind))
    ||| (a.target matches Some(x) && b.target matches Some(y) && x@ == y@)
}

/// A kind and a target that agree: syncs and creates target no task, a
/// completion targets a non-empty id, and an edit targets the id of the
/// valid task it carries.
pub open spec fn kind_target_coherent(kind: ApiAction, target: Option<String>) -> bool {
    match kind {
        ApiAction::FullSync => target is None,
        ApiAction::DeltaSync => target is None,
        ApiAction::QuickAdd(_) => target is None,
        ApiAction::Complete => target matches Some(id) && id@.len() > 0,
        ApiAction::Edit(t) => t.valid() && (target matches Some(id) && id@ == t.id@),
    }
}

/// An action whose fields agree with its kind.
pub open spec fn action_coherent(a: Action) -> bool {
    kind_target_coherent(a.kind, a.target)
}

/// An action may be dispatched now: it is queued, or its retry delay expired.
pub open spec fn ready_status(a: Action, now: u64) -> bool {
    ||| a.status is Queued
    ||| (a.status matches ActionStatus::Retrying(at) && at <= now)
}

/// The action at `i` is the next of its lane and may be dispatched now:
/// nothing earlier shares its lane (so the lane's submission order is kept
/// and nothing of its lane is in flight), and its own status permits it.
pub open spec fn ready_at(q: Seq<Action>, i: int, now: u64) -> bool {
    &&& 0 <= i < q.len()
    &&& ready_status(q[i], now)
    &&& forall|j: int| 0 <= j < i ==> !same_lane(q[j], q[i])
}

/// Only the earliest action of a lane is ever in flight.
pub open spec fn inflight_is_lane_head(q: Seq<Action>) -> bool {
    forall|i: int, j: int|
        0 <= i < j < q.len() && q[j].status is InFlight ==> !same_lane(q[i], q[j])
}

/// Every queued action is coherent.
pub open spec fn all_coherent(q: Seq<Action>) -> bool {
    forall|i: int| 0 <= i < q.len() ==> action_coherent(q[i])
}

/// No two queued actions share a handle.
pub open spec fn unique_handles(q: Seq<Action>) -> bool {
    forall|i: int, j: int| 0 <= i < j < q.len() ==> q[i].handle != q[j].handle
}

/// The queue's internal invariant.
pub open spec fn queue_wf(q: Seq<Action>) -> bool {
    &&& inflight_is_lane_head(q)
    &&& all_coherent(q)
    &&& unique_handles(q)
}

/// Lane exclusivity: in a well-formed queue, no two actions sharing a lane
/// (in particular, sharing a target task id) are in flight at once.
pub proof fn lemma_lane_exclusive(q: Seq<Action>, i: int, j: int)
    requires
        queue_wf(q),
        0 <= i < j < q.len(),
        same_lane(q[i], q[j]),
    ensures
        !(q[i].status is InFlight && q[j].status is InFlight),
{
}

/// Per-lane order: an action may be dispatched only when nothing earlier
/// shares its lane, so a lane's actions are dispatched, and their effects
/// applied, in submission order, regardless of retries.
pub proof fn lemma_per_lane_fifo(q: Seq<Action>, i: int, j: int, now: u64)
    requires
        ready_at(q, i, now),
        0 <= j < i,
    ensures
        !same_lane(q[j], q[i]),
{
}

/// The queue after rescheduling the action at `i` for another attempt at
/// `next_at`: its attempt count grows (saturating), its status becomes
/// `Retrying(next_at)`, and nothing else about it changes.
pub open spec fn retry_update(q: Seq<Action>, i: int, next_at: u64) -> Seq<Action> {
    q.update(
        i,
        Action {
            attempt: if q[i].attempt < u32::MAX {
                (q[i].attempt + 1) as u32
            } else {
                u32::MAX
            },
            status: ActionStatus::Retrying(next_at),
            ..q[i]
        },
    )
}

/// Idempotent retry: rescheduling an action preserves its identity — the
/// idempotency token, the kind, the target and the handle are those it was
/// enqueued with, however often it is retried. Only the attempt count and
/// the status move.
pub proof fn lemma_retry_preserves_identity(q: Seq<Action>, i: int, next_at: u64)
    requires
        0 <= i < q.len(),
    ensures
        retry_update(q, i, next_at)[i].token == q[i].token,
        retry_update(q, i, next_at)[i].kind == q[i].kind,
        retry_update(q, i, next_at)[i].target == q[i].target,
        retry_update(q, i, next_at)[i].handle == q[i].handle,
        forall|j: int| 0 <= j < q.len() && j != i ==> retry_update(q, i, next_at)[j] == q[j],
{
}

/// Removing an action keeps the queue well-formed.
proof fn lemma_wf_remove(q: Seq<Action>, i: int)
    requires
        queue_wf(q),
        0 <= i < q.len(),
    ensures
        queue_wf(q.remove(i)),
{
    let r = q.remove(i);
    assert forall|a: int, b: int|
        0 <= a < b < r.len() && r[b].status is InFlight implies !same_lane(r[a], r[b]) by {
        let a0 = if a < i {
            a
        } else {
            a + 1
        };
        let b0 = if b < i {
            b
        } else {
            b + 1
        };
        assert(r[a] == q[a0]);
        assert(r[b] == q[b0]);
    }
    assert forall|a: int| 0 <= a < r.len() implies action_coherent(r[a]) by {
        let a0 = if a < i {
            a
        } else {
            a + 1
        };
        assert(r[a] == q[a0]);
    }
    assert forall|a: int, b: int|
        0 <= a < b < r.len() implies r[a].handle != r[b].handle by {
        let a0 = if a < i {
            a
        } else {
            a + 1
        };
        let b0 = if b < i {
            b
        } else {
            b + 1
        };
        assert(r[a] == q[a0]);
        assert(r[b] == q[b0]);
    }
}

/// An ordered collection drained from the front.
pub struct Queue<T> {
    pub queue: Vec<T>,
}

impl<T> Queue<T> {
    /// An empty queue.
    pub fn new() -> (q: Queue<T>)
        ensures
            q.queue@ == Seq::<T>::empty(),
    {
        Queue { queue: Vec::new() }
    }

    /// Appends to the tail, preserving submission order.
    pub fn enqueue(&mut self, item: T)
        ensures
            final(self).queue@ == old(self).queue@.push(item),
    {
        self.queue.push(item);
    }

    /// Removes and returns the earliest-submitted item, if any.
    pub fn dequeue(&mut self) -> (r: Option<T>)
        ensures
            old(self).queue@.len() == 0 ==> r is None && final(self).queue@ == old(self).queue@,
            old(self).queue@.len() > 0 ==> r == Some(old(self).queue@[0]) && final(self).queue@
                == old(self).queue@.drop_first(),
    {
        if self.queue.len() == 0 {
            None
        } else {
            let item = self.queue.remove(0);
            proof {
                assert(self.queue@ =~= old(self).queue@.drop_first());
            }
            Some(item)
        }
    }

    /// How many items are pending.
    pub fn len(&self) -> (n: usize)
        ensures
            n == self.queue@.len(),
    {
        self.queue.len()
    }
}

impl Queue<Action> {
    /// Whether these two actions contend for the same lane.
    fn lanes_conflict(a: &Action, b: &Action) -> (r: bool)
        ensures
            r == same_lane(*a, *b),
    {
        let both_sync = (matches!(a.kind, ApiAction::FullSync | ApiAction::DeltaSync)) && (
        matches!(b.kind, ApiAction::FullSync | ApiAction::DeltaSync));
        if both_sync {
            true
        } else {
            match (&a.target, &b.target) {
                (Some(x), Some(y)) => x.eq(y),
                _ => false,
            }
        }
    }

    /// Whether no action before position `i` shares a lane with the action
    /// at `i`.
    fn lane_free_before(&self, i: usize) -> (r: bool)
        requires
            i < self.queue@.len(),
        ensures
            r == forall|k: int| 0 <= k < i ==> !same_lane(self.queue@[k], self.queue@[i as int]),
    {
        let mut j: usize = 0;
        while j < i
            invariant
                j <= i,
                i < self.queue@.len(),
                forall|k: int| 0 <= k < j ==> !same_lane(self.queue@[k], self.queue@[i as int]),
            decreases i - j,
        {
            if Self::lanes_conflict(&self.queue[j], &self.queue[i]) {
                return false;
            }
            j = j + 1;
        }
        true
    }

    /// Returns the position of the earliest-submitted action that may be
    /// dispatched now: its status permits it and no earlier action shares
    /// its lane. Actions blocked by an in-flight or backed-off sibling are
    /// skipped without starving other lanes.
    pub fn next_ready(&self, now: u64) -> (r: Option<usize>)
        ensures
            match r {
                Some(i) => ready_at(self.queue@, i as int, now) && forall|j: int|
                    0 <= j < i ==> !ready_at(self.queue@, j, now),
                None => forall|i: int| !ready_at(self.queue@, i, now),
            },
    {
        let ghost q = self.queue@;
        let mut i: usize = 0;
        while i < self.queue.len()
            invariant
                i <= q.len(),
                q == self.queue@,
                forall|j: int| 0 <= j < i ==> !ready_at(q, j, now),
            decreases q.len() - i,
        {
            let dispatchable = match self.queue[i].status {
                ActionStatus::Queued => true,
                ActionStatus::Retrying(at) => at <= now,
                ActionStatus::InFlight => false,
            };
            if dispatchable && self.lane_free_before(i) {
                return Some(i);
            }
            i = i + 1;
        }
        None
    }

    /// Returns the position of the action with this handle, if it is still
    /// pending.
    pub fn find_by_handle(&self, handle: u64) -> (r: Option<usize>)
        ensures
            match r {
                Some(i) => 0 <= i < self.queue@.len() && self.queue@[i as int].handle == handle,
                None => forall|i: int|
                    0 <= i < self.queue@.len() ==> self.queue@[i].handle != handle,
            },
    {
        let mut i: usize = 0;
        while i < self.queue.len()
            invariant
                i <= self.queue@.len(),
                forall|j: int| 0 <= j < i ==> self.queue@[j].handle != handle,
            decreases self.queue@.len() - i,
        {
            if self.queue[i].handle == handle {
                return Some(i);
            }
            i = i + 1;
        }
        None
    }

    /// Marks the action at `i` in flight. Demanded of the caller: nothing
    /// earlier shares its lane, so lane exclusivity is kept.
    pub fn mark_in_flight(&mut self, i: usize)
        requires
            queue_wf(old(self).queue@),
            i < old(self).queue@.len(),
            forall|j: int|
                0 <= j < i ==> !same_lane(old(self).queue@[j], old(self).queue@[i as int]),
        ensures
            final(self).queue@ == old(self).queue@.update(
                i as int,
                Action { status: ActionStatus::InFlight, ..old(self).queue@[i as int] },
            ),
            queue_wf(final(self).queue@),
    {
        let ghost q0 = self.queue@;
        let mut a = self.queue.remove(i);
        a.status = ActionStatus::InFlight;
        self.queue.insert(i, a);
        proof {
            let q1 = self.queue@;
            assert(q1 =~= q0.update(
                i as int,
                Action { status: ActionStatus::InFlight, ..q0[i as int] },
            ));
            assert forall|x: int, y: int|
                0 <= x < y < q1.len() && q1[y].status is InFlight implies !same_lane(
                q1[x],
                q1[y],
            ) by {
                if y == i {
                    assert(!same_lane(q0[x], q0[i as int]));
                } else {
                    assert(q0[y].status is InFlight);
                    assert(!same_lane(q0[x], q0[y]));
                }
            }
        }
    }

    /// Reschedules the action at `i` for another attempt at `next_at`,
    /// keeping its token, kind, target and handle.
    pub fn mark_retry(&mut self, i: usize, next_at: u64)
        requires
            queue_wf(old(self).queue@),
            i < old(self).queue@.len(),
        ensures
            final(self).queue@ == retry_update(old(self).queue@, i as int, next_at),
            queue_wf(final(self).queue@),
    {
        let ghost q0 = self.queue@;
        let mut a = self.queue.remove(i);
        a.attempt = if a.attempt < u32::MAX {
            a.attempt + 1
        } else {
            u32::MAX
        };
        a.status = ActionStatus::Retrying(next_at);
        self.queue.insert(i, a);
        proof {
            let q1 = self.queue@;
            assert(q1 =~= retry_update(q0, i as int, next_at));
            assert forall|x: int, y: int|
                0 <= x < y < q1.len() && q1[y].status is InFlight implies !same_lane(
                q1[x],
                q1[y],
            ) by {
                assert(q0[y].status is InFlight);
                assert(!same_lane(q0[x], q0[y]));
            }
        }
    }

    /// Destroys the action at `i`, handing it back: the step for an action
    /// whose status reached its end of life, confirmed or permanently
    /// failed. Every other action keeps its place.
    pub fn remove_action(&mut self, i: usize) -> (a: Action)
        requires
            queue_wf(old(self).queue@),
            i < old(self).queue@.len(),
        ensures
            a == old(self).queue@[i as int],
            final(self).queue@ == old(self).queue@.remove(i as int),
            queue_wf(final(self).queue@),
    {
        proof {
            lemma_wf_remove(self.queue@, i as int);
        }
        let a = self.queue.remove(i);
        a
    }

    /// A borrow of the action at `i`.
    pub fn get(&self, i: usize) -> (a: &Action)
        requires
            i < self.queue@.len(),
        ensures
            *a == self.queue@[i as int],
    {
        &self.queue[i]
    }
}

} // verus!
