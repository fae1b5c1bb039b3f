//! The authoritative in-memory task store: task id to task, plus the
//! last-confirmed sync token.

use vstd::prelude::*;
use crate::task::{Task, TaskView};

verus! {

/// The sequence of tasks, each abstracted to its view.
pub open spec fn views_of(s: Seq<Task>) -> Seq<TaskView> {
    s.map_values(|t: Task| t@)
}

/// Abstraction distributes over concatenation.
pub proof fn lemma_views_add(a: Seq<Task>, b: Seq<Task>)
    ensures
        views_of(a + b) =~= views_of(a) + views_of(b),
{
}

/// Abstraction distributes over appending.
pub proof fn lemma_views_push(a: Seq<Task>, t: Task)
    ensures
        views_of(a.push(t)) =~= views_of(a).push(t@),
{
    assert(a.push(t) =~= a + seq![t]);
    lemma_views_add(a, seq![t]);
    assert(views_of(seq![t]) =~= seq![t@]);
}

/// The tasks of this priority, in their original order.
pub open spec fn with_priority(s: Seq<Task>, pri: u8) -> Seq<Task> {
    s.filter(|t: Task| t.priority == pri)
}

/// The order a snapshot presents: priority descending, ties broken by the
/// original server order.
pub open spec fn snapshot_order(s: Seq<Task>) -> Seq<Task> {
    with_priority(s, 4) + with_priority(s, 3) + with_priority(s, 2) + with_priority(s, 1)
}

/// The snapshot order loses and invents nothing: for tasks whose priorities
/// lie in the model, it is a permutation of the original sequence.
pub proof fn lemma_snapshot_order_permutes(s: Seq<Task>)
    requires
        forall|i: int| 0 <= i < s.len() ==> 1 <= #[trigger] s[i].priority <= 4,
    ensures
        snapshot_order(s).to_multiset() == s.to_multiset(),
    decreases s.len(),
{
    broadcast use vstd::seq_lib::lemma_multiset_commutative;
    broadcast use vstd::seq_lib::group_to_multiset_ensures;

    reveal(Seq::filter);
    if s.len() == 0 {
        assert(with_priority(s, 4) =~= Seq::<Task>::empty());
        assert(with_priority(s, 3) =~= Seq::<Task>::empty());
        assert(with_priority(s, 2) =~= Seq::<Task>::empty());
        assert(with_priority(s, 1) =~= Seq::<Task>::empty());
        assert(snapshot_order(s) =~= Seq::<Task>::empty());
        assert(snapshot_order(s).to_multiset() =~= s.to_multiset());
    } else {
        let s0 = s.drop_last();
        let t = s.last();
        assert forall|i: int| 0 <= i < s0.len() implies 1 <= #[trigger] s0[i].priority <= 4 by {
            assert(s0[i] == s[i]);
        }
        lemma_snapshot_order_permutes(s0);
        assert(1 <= t.priority <= 4);
        let m0 = with_priority(s0, 4).to_multiset().add(with_priority(s0, 3).to_multiset()).add(
            with_priority(s0, 2).to_multiset(),
        ).add(with_priority(s0, 1).to_multiset());
        assert(snapshot_order(s0).to_multiset() =~= m0);
        let m1 = with_priority(s, 4).to_multiset().add(with_priority(s, 3).to_multiset()).add(
            with_priority(s, 2).to_multiset(),
        ).add(with_priority(s, 1).to_multiset());
        assert(snapshot_order(s).to_multiset() =~= m1);
        assert forall|k: u8| 1 <= k <= 4 implies with_priority(s, k).to_multiset() == (if t.priority
            == k {
            with_priority(s0, k).to_multiset().insert(t)
        } else {
            with_priority(s0, k).to_multiset()
        }) by {
            if t.priority == k {
                assert(with_priority(s, k) == with_priority(s0, k).push(t));
                assert(with_priority(s0, k).push(t).to_multiset() =~= with_priority(
                    s0,
                    k,
                ).to_multiset().insert(t));
            } else {
                assert(with_priority(s, k) == with_priority(s0, k));
            }
        }
        assert(m1 =~= m0.insert(t));
        assert(s0.push(t).to_multiset() =~= s0.to_multiset().insert(t));
        assert(s =~= s0.push(t));
        assert(snapshot_order(s).to_multiset() =~= s.to_multiset());
    }
}

/// No two tasks in the sequence share a server id.
pub open spec fn unique_ids(s: Seq<Task>) -> bool {
    forall|i: int, j: int| 0 <= i < j < s.len() ==> s[i].id@ != s[j].id@
}

/// Every task in the sequence is one the store accepts.
pub open spec fn all_valid(s: Seq<Task>) -> bool {
    forall|i: int| 0 <= i < s.len() ==> s[i].valid()
}

/// Some task in the sequence carries this id.
pub open spec fn contains_id(s: Seq<Task>, id: Seq<char>) -> bool {
    exists|i: int| 0 <= i < s.len() && s[i].id@ == id
}

/// The position of the task carrying this id; meaningful when the id occurs
/// and the ids are unique.
pub open spec fn index_of_id(s: Seq<Task>, id: Seq<char>) -> int {
    choose|i: int| 0 <= i < s.len() && s[i].id@ == id
}

/// The sequence read as a map from id to task; a later occurrence of an id
/// shadows an earlier one.
pub open spec fn seq_to_map(s: Seq<Task>) -> Map<Seq<char>, Task>
    decreases s.len(),
{
    if s.len() == 0 {
        Map::empty()
    } else {
        seq_to_map(s.drop_last()).insert(s.last().id@, s.last())
    }
}

/// An id is in the map view exactly when some task carries it.
pub proof fn lemma_seq_to_map_domain(s: Seq<Task>, id: Seq<char>)
    ensures
        seq_to_map(s).dom().contains(id) == contains_id(s, id),
    decreases s.len(),
{
    if s.len() > 0 {
        lemma_seq_to_map_domain(s.drop_last(), id);
        if contains_id(s, id) && s.last().id@ != id {
            let i = choose|i: int| 0 <= i < s.len() && s[i].id@ == id;
            assert(s.drop_last()[i] == s[i]);
        }
    }
}

/// With unique ids, the map view sends each task's id to that task.
pub proof fn lemma_seq_to_map_index(s: Seq<Task>, i: int)
    requires
        unique_ids(s),
        0 <= i < s.len(),
    ensures
        seq_to_map(s).dom().contains(s[i].id@),
        seq_to_map(s)[s[i].id@] == s[i],
    decreases s.len(),
{
    if i == s.len() - 1 {
    } else {
        assert(s.drop_last()[i] == s[i]);
        lemma_seq_to_map_index(s.drop_last(), i);
        assert(s.last().id@ != s[i].id@);
    }
}

/// Updating the task at an id's position changes the map view as an insert.
proof fn lemma_seq_to_map_update(s: Seq<Task>, i: int, t: Task)
    requires
        unique_ids(s),
        0 <= i < s.len(),
        t.id@ == s[i].id@,
    ensures
        seq_to_map(s.update(i, t)) =~= seq_to_map(s).insert(t.id@, t),
    decreases s.len(),
{
    let su = s.update(i, t);
    if i == s.len() - 1 {
        assert(su.drop_last() =~= s.drop_last());
    } else {
        assert(su.drop_last() =~= s.drop_last().update(i, t));
        assert(s.drop_last()[i] == s[i]);
        lemma_seq_to_map_update(s.drop_last(), i, t);
        assert(s.last().id@ != t.id@);
        assert(su.last() == s.last());
    }
}

/// Appending a task changes the map view as an insert.
proof fn lemma_seq_to_map_push(s: Seq<Task>, t: Task)
    ensures
        seq_to_map(s.push(t)) =~= seq_to_map(s).insert(t.id@, t),
{
    assert(s.push(t).drop_last() =~= s);
}

/// Removing the task at an id's position changes the map view as a remove.
proof fn lemma_seq_to_map_remove(s: Seq<Task>, i: int)
    requires
        unique_ids(s),
        0 <= i < s.len(),
    ensures
        seq_to_map(s.remove(i)) =~= seq_to_map(s).remove(s[i].id@),
    decreases s.len(),
{
    let sr = s.remove(i);
    if i == s.len() - 1 {
        assert(sr =~= s.drop_last());
        lemma_seq_to_map_domain(s.drop_last(), s[i].id@);
        assert(!contains_id(s.drop_last(), s[i].id@)) by {
            if contains_id(s.drop_last(), s[i].id@) {
                let j = choose|j: int|
                    0 <= j < s.drop_last().len() && s.drop_last()[j].id@ == s[i].id@;
                assert(s[j].id@ == s[i].id@);
            }
        }
        assert(seq_to_map(s.drop_last()) =~= seq_to_map(s.drop_last()).remove(s[i].id@));
    } else {
        assert(sr.drop_last() =~= s.drop_last().remove(i));
        assert(s.drop_last()[i] == s[i]);
        lemma_seq_to_map_remove(s.drop_last(), i);
        assert(sr.last() == s.last());
        assert(s.last().id@ != s[i].id@);
    }
}

/// The authoritative local snapshot: the confirmed tasks in server order,
/// and the sync token the server last confirmed. `"*"` as the token requests
/// a full snapshot on the next sync.
pub struct TaskStore {
    pub tasks: Vec<Task>,
    pub sync_token: String,
}

impl TaskStore {
    /// The store's internal invariant: ids unique, every task accepted.
    pub open spec fn wf(self) -> bool {
        &&& unique_ids(self.tasks@)
        &&& all_valid(self.tasks@)
    }

    /// The store read as a map from task id to task.
    pub open spec fn map_view(self) -> Map<Seq<char>, Task> {
        seq_to_map(self.tasks@)
    }

    /// An empty store whose cursor requests a full snapshot.
    pub fn new() -> (r: TaskStore)
        ensures
            r.wf(),
            r.tasks@ == Seq::<Task>::empty(),
            r.sync_token@ == "*"@,
    {
        TaskStore { tasks: Vec::new(), sync_token: String::from_str("*") }
    }

    /// Finds the position of the task with this id, scanning in server order.
    fn find_index(&self, id: &String) -> (r: Option<usize>)
        ensures
            match r {
                Some(i) => 0 <= i < self.tasks@.len() && self.tasks@[i as int].id@ == id@,
                None => !contains_id(self.tasks@, id@),
            },
    {
        let mut i: usize = 0;
        while i < self.tasks.len()
            invariant
                i <= self.tasks@.len(),
                forall|j: int| 0 <= j < i ==> self.tasks@[j].id@ != id@,
            decreases self.tasks@.len() - i,
        {
            if self.tasks[i].id.eq(id) {
                return Some(i);
            }
            i = i + 1;
        }
        None
    }

    /// Whether the store holds a task with this id.
    pub fn contains(&self, id: &String) -> (r: bool)
        ensures
            r == contains_id(self.tasks@, id@),
    {
        self.find_index(id).is_some()
    }

    /// Inserts a confirmed task, overwriting the task with the same id in
    /// place, or appending when the id is new. The map view gains exactly
    /// this binding; every other task keeps its position.
    pub fn upsert(&mut self, task: Task)
        requires
            old(self).wf(),
            task.valid(),
        ensures
            final(self).wf(),
            final(self).map_view() == old(self).map_view().insert(task.id@, task),
            final(self).sync_token == old(self).sync_token,
            contains_id(old(self).tasks@, task.id@) ==> final(self).tasks@ == old(
                self,
            ).tasks@.update(index_of_id(old(self).tasks@, task.id@), task),
            !contains_id(old(self).tasks@, task.id@) ==> final(self).tasks@ == old(
                self,
            ).tasks@.push(task),
    {
        let ghost s0 = self.tasks@;
        match self.find_index(&task.id) {
            Some(i) => {
                proof {
                    lemma_seq_to_map_update(s0, i as int, task);
                    assert(index_of_id(s0, task.id@) == i as int) by {
                        let k = index_of_id(s0, task.id@);
                        assert(contains_id(s0, task.id@));
                        assert(0 <= k < s0.len() && s0[k].id@ == task.id@);
                    }
                }
                self.tasks.remove(i);
                self.tasks.insert(i, task);
                proof {
                    assert(self.tasks@ =~= s0.update(i as int, task));
                }
            },
            None => {
                proof {
                    lemma_seq_to_map_push(s0, task);
                }
                self.tasks.push(task);
            },
        }
    }

    /// Removes the task with this id, if present; every other task keeps its
    /// position, and the map view loses exactly this binding.
    pub fn remove(&mut self, id: &String)
        requires
            old(self).wf(),
        ensures
            final(self).wf(),
            final(self).map_view() == old(self).map_view().remove(id@),
            final(self).sync_token == old(self).sync_token,
            contains_id(old(self).tasks@, id@) ==> final(self).tasks@ == old(
                self,
            ).tasks@.remove(index_of_id(old(self).tasks@, id@)),
            !contains_id(old(self).tasks@, id@) ==> final(self).tasks@ == old(self).tasks@,
    {
        let ghost s0 = self.tasks@;
        match self.find_index(id) {
            Some(i) => {
                proof {
                    lemma_seq_to_map_remove(s0, i as int);
                    assert(s0[i as int].id@ == id@);
                    assert(index_of_id(s0, id@) == i as int) by {
                        let k = index_of_id(s0, id@);
                        assert(contains_id(s0, id@));
                        assert(0 <= k < s0.len() && s0[k].id@ == id@);
                    }
                }
                self.tasks.remove(i);
            },
            None => {
                proof {
                    lemma_seq_to_map_domain(s0, id@);
                    assert(self.map_view() =~= self.map_view().remove(id@));
                }
            },
        }
    }

    /// Atomically discards the whole map and stores these items with this
    /// token: a full resync. The new contents are exactly the items (a later
    /// duplicate id shadowing an earlier one).
    pub fn replace_all(&mut self, items: Vec<Task>, token: String)
        requires
            old(self).wf(),
            all_valid(items@),
        ensures
            final(self).wf(),
            final(self).map_view() == seq_to_map(items@),
            final(self).sync_token == token,
            unique_ids(items@) ==> final(self).tasks@ == items@,
    {
        self.tasks.clear();
        self.sync_token = token;
        self.upsert_all(items);
        proof {
            assert(Map::<Seq<char>, Task>::empty().union_prefer_right(seq_to_map(items@))
                =~= seq_to_map(items@));
        }
    }

    /// Upserts each item by id in order, then sets the token: an incremental
    /// sync. The map view is the old one overridden by the items; tasks the
    /// delta does not mention are untouched.
    pub fn apply_delta(&mut self, items: Vec<Task>, token: String)
        requires
            old(self).wf(),
            all_valid(items@),
        ensures
            final(self).wf(),
            final(self).map_view() == old(self).map_view().union_prefer_right(seq_to_map(items@)),
            final(self).sync_token == token,
    {
        self.sync_token = token;
        self.upsert_all(items);
    }

    /// Upserts each item in order.
    fn upsert_all(&mut self, items: Vec<Task>)
        requires
            old(self).wf(),
            all_valid(items@),
        ensures
            final(self).wf(),
            final(self).map_view() == old(self).map_view().union_prefer_right(seq_to_map(items@)),
            final(self).sync_token == old(self).sync_token,
            old(self).tasks@.len() == 0 && unique_ids(items@) ==> final(self).tasks@ == items@,
    {
        let ghost items0 = items@;
        let ghost m0 = self.map_view();
        let ghost from_empty = self.tasks@.len() == 0;
        let mut rest = items;
        proof {
            assert(m0.union_prefer_right(seq_to_map(items0.take(0))) =~= m0);
        }
        while rest.len() > 0
            invariant
                self.wf(),
                self.sync_token == old(self).sync_token,
                rest@.len() <= items0.len(),
                rest@ == items0.skip(items0.len() - rest@.len()),
                all_valid(items0),
                self.map_view() == m0.union_prefer_right(
                    seq_to_map(items0.take(items0.len() - rest@.len())),
                ),
                from_empty && unique_ids(items0) ==> self.tasks@ == items0.take(
                    items0.len() - rest@.len(),
                ),
            decreases rest@.len(),
        {
            let ghost k = items0.len() - rest@.len();
            let t = rest.remove(0);
            proof {
                assert(t == items0[k]);
                assert(rest@ =~= items0.skip(k + 1));
                assert(t.valid());
                assert(items0.take(k + 1).drop_last() =~= items0.take(k));
                assert(items0.take(k + 1).last() == items0[k]);
                assert(seq_to_map(items0.take(k + 1)) == seq_to_map(items0.take(k)).insert(
                    t.id@,
                    t,
                ));
                if from_empty && unique_ids(items0) {
                    assert forall|j: int| 0 <= j < self.tasks@.len() implies self.tasks@[j].id@
                        != t.id@ by {
                        assert(self.tasks@[j] == items0[j]);
                    }
                    assert(!contains_id(self.tasks@, t.id@));
                }
            }
            let ghost pre = self.map_view();
            self.upsert(t);
            proof {
                assert(self.map_view() =~= m0.union_prefer_right(seq_to_map(items0.take(k + 1))));
                if from_empty && unique_ids(items0) {
                    assert(self.tasks@ =~= items0.take(k + 1));
                }
            }
        }
        proof {
            assert(items0.take(items0.len() as int) =~= items0);
        }
    }

    /// Returns a read-consistent copy of the tasks, sorted by priority
    /// descending, ties broken by the original server order.
    pub fn snapshot(&self) -> (r: Vec<Task>)
        ensures
            views_of(r@) == views_of(snapshot_order(self.tasks@)),
    {
        let mut out: Vec<Task> = Vec::new();
        self.push_matching(&mut out, 4);
        self.push_matching(&mut out, 3);
        self.push_matching(&mut out, 2);
        self.push_matching(&mut out, 1);
        proof {
            let s = self.tasks@;
            lemma_views_add(with_priority(s, 4) + with_priority(s, 3) + with_priority(s, 2),
                with_priority(s, 1));
            lemma_views_add(with_priority(s, 4) + with_priority(s, 3), with_priority(s, 2));
            lemma_views_add(with_priority(s, 4), with_priority(s, 3));
            assert(views_of(out@) =~= views_of(snapshot_order(s)));
        }
        out
    }

    /// Appends a copy of each task of this priority, in order.
    fn push_matching(&self, out: &mut Vec<Task>, pri: u8)
        ensures
            views_of(final(out)@) == views_of(old(out)@) + views_of(
                with_priority(self.tasks@, pri),
            ),
    {
        let ghost out0 = out@;
        let ghost s = self.tasks@;
        let mut j: usize = 0;
        proof {
            reveal(Seq::filter);
            assert(s.take(0).filter(|t: Task| t.priority == pri) =~= Seq::<Task>::empty());
            assert(views_of(out@) =~= views_of(out0) + views_of(
                s.take(0).filter(|t: Task| t.priority == pri),
            ));
        }
        while j < self.tasks.len()
            invariant
                j <= s.len(),
                s == self.tasks@,
                views_of(out@) == views_of(out0) + views_of(
                    s.take(j as int).filter(|t: Task| t.priority == pri),
                ),
            decreases s.len() - j,
        {
            let ghost taken = s.take(j as int).filter(|t: Task| t.priority == pri);
            proof {
                reveal(Seq::filter);
                assert(s.take(j + 1).drop_last() =~= s.take(j as int));
                assert(s.take(j + 1).last() == s[j as int]);
            }
            if self.tasks[j].priority == pri {
                let copy = self.tasks[j].duplicate();
                let ghost pre = out@;
                out.push(copy);
                proof {
                    assert(s.take(j + 1).filter(|t: Task| t.priority == pri) =~= taken.push(
                        s[j as int],
                    ));
                    lemma_views_push(taken, s[j as int]);
                    lemma_views_push(pre, copy);
                    assert(views_of(out@) =~= views_of(out0) + views_of(taken).push(
                        s[j as int]@,
                    ));
                }
            } else {
                proof {
                    assert(s.take(j + 1).filter(|t: Task| t.priority == pri) =~= taken);
                }
            }
            j = j + 1;
        }
        proof {
            assert(s.take(s.len() as int) =~= s);
        }
    }
}

} // verus!
