//! The task data model: a flat task as the remote service confirms it.

use vstd::prelude::*;
use vstd::string::StrSliceExecFns;

verus! {

/// A task's due date: the ISO-formatted date plus the human-readable phrase
/// the server derived it from.
#[derive(Clone)]
pub struct Due {
    pub date: String,
    pub string: String,
}

/// A flat task. Identity is `id`, which the server assigns; a task is owned
/// by the store and mutated only through confirmed sync results.
#[derive(Clone)]
pub struct Task {
    pub id: String,
    pub content: String,
    pub description: String,
    pub checked: bool,
    pub labels: Vec<String>,
    pub priority: u8,
    pub due: Option<Due>,
}

/// The mathematical content of a [`Due`]: both strings as character
/// sequences.
#[verifier::ext_equal]
pub ghost struct DueView {
    pub date: Seq<char>,
    pub string: Seq<char>,
}

/// The mathematical content of a [`Task`]: every string as a character
/// sequence. Two tasks with equal views are interchangeable.
#[verifier::ext_equal]
pub ghost struct TaskView {
    pub id: Seq<char>,
    pub content: Seq<char>,
    pub description: Seq<char>,
    pub checked: bool,
    pub labels: Seq<Seq<char>>,
    pub priority: u8,
    pub due: Option<DueView>,
}

impl View for Due {
    type V = DueView;

    open spec fn view(&self) -> DueView {
        DueView { date: self.date@, string: self.string@ }
    }
}

impl View for Task {
    type V = TaskView;

    open spec fn view(&self) -> TaskView {
        TaskView {
            id: self.id@,
            content: self.content@,
            description: self.description@,
            checked: self.checked,
            labels: self.labels.deep_view(),
            priority: self.priority,
            due: match self.due {
                Some(d) => Some(d@),
                None => None,
            },
        }
    }
}

impl Task {
    /// Copies a task; the copy has the same view.
    pub fn duplicate(&self) -> (r: Task)
        ensures
            r@ == self@,
    {
        let due: Option<Due> = match &self.due {
            Some(d) => Some(Due { date: d.date.clone(), string: d.string.clone() }),
            None => None,
        };
        let r = Task {
            id: self.id.clone(),
            content: self.content.clone(),
            description: self.description.clone(),
            checked: self.checked,
            labels: clone_labels(&self.labels),
            priority: self.priority,
            due,
        };
        proof {
            assert(r.labels.deep_view() =~= self.labels.deep_view());
            assert(r@ =~= self@);
        }
        r
    }
    /// A task the store accepts: a non-empty server id and a priority in 1..=4.
    pub open spec fn valid(self) -> bool {
        &&& self.id@.len() > 0
        &&& 1 <= self.priority <= 4
    }

    /// Checks validity: `true` exactly when the store will accept the task.
    pub fn is_valid(&self) -> (r: bool)
        ensures
            r == self.valid(),
    {
        self.id.as_str().unicode_len() > 0 && 1 <= self.priority && self.priority <= 4
    }

    /// Builds an unconfirmed task from its parts, clamping the priority into
    /// 1..=4 and marking it not yet completed.
    pub fn create_task_obj(
        id: String,
        content: String,
        description: String,
        date: String,
        labels: Vec<String>,
        priority: u8,
    ) -> (r: Task)
        ensures
            r.id == id,
            r.content == content,
            r.description == description,
            r.checked == false,
            r.labels == labels,
            r.priority == (if priority > 4 {
                4u8
            } else if priority < 1 {
                1u8
            } else {
                priority
            }),
            r.due matches Some(d) && d.date == date && d.string@ == Seq::<char>::empty(),
            id@.len() > 0 ==> r.valid(),
    {
        let clamped: u8 = if priority > 4 {
            4
        } else if priority < 1 {
            1
        } else {
            priority
        };
        Task {
            id,
            content,
            description,
            checked: false,
            labels,
            priority: clamped,
            due: Some(Due { date, string: String::new() }),
        }
    }

    /// Returns the task's server id.
    pub fn get_id(&self) -> (r: String)
        ensures
            r == self.id,
    {
        self.id.clone()
    }

    /// Returns the task's parts: id, content, description, labels, due date
    /// (empty when the task has none), and priority.
    pub fn get_details(&self) -> (r: (String, String, String, Vec<String>, String, u8))
        ensures
            r.0 == self.id,
            r.1 == self.content,
            r.2 == self.description,
            r.3@.len() == self.labels@.len(),
            forall|i: int| 0 <= i < self.labels@.len() ==> r.3@[i]@ == self.labels@[i]@,
            r.4@ == (match self.due {
                Some(d) => d.date@,
                None => Seq::<char>::empty(),
            }),
            r.5 == self.priority,
    {
        let due_date: String = match &self.due {
            Some(d) => d.date.clone(),
            None => String::new(),
        };
        (
            self.id.clone(),
            self.content.clone(),
            self.description.clone(),
            clone_labels(&self.labels),
            due_date,
            self.priority,
        )
    }
}

/// Clones a label list element by element.
fn clone_labels(labels: &Vec<String>) -> (r: Vec<String>)
    ensures
        r@.len() == labels@.len(),
        forall|i: int| 0 <= i < labels@.len() ==> r@[i]@ == labels@[i]@,
{
    let mut out: Vec<String> = Vec::new();
    let mut i: usize = 0;
    while i < labels.len()
        invariant
            i <= labels@.len(),
            out@.len() == i,
            forall|j: int| 0 <= j < i ==> out@[j]@ == labels@[j]@,
        decreases labels@.len() - i,
    {
        out.push(labels[i].clone());
        i = i + 1;
    }
    out
}

} // verus!
