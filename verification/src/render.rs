//! Plain-text renderings of tasks for a UI layer, and the small decisions a
//! list view makes; everything here is pure string and index arithmetic.

use vstd::prelude::*;
use vstd::string::{StrSliceExecFns, StringExecFns};
use crate::task::{DueView, Task, TaskView};

verus! {

/// The date shown for a task: its due date, or this placeholder.
pub open spec fn due_text(due: Option<DueView>) -> Seq<char> {
    match due {
        None => "not due"@,
        Some(d) => d.date,
    }
}

/// The single character shown for a priority; priorities outside the model
/// render as a question mark.
pub open spec fn priority_text(p: u8) -> Seq<char> {
    if p == 1 {
        "1"@
    } else if p == 2 {
        "2"@
    } else if p == 3 {
        "3"@
    } else if p == 4 {
        "4"@
    } else {
        "?"@
    }
}

/// The labels joined with commas.
pub open spec fn join_comma(ls: Seq<Seq<char>>) -> Seq<char>
    decreases ls.len(),
{
    if ls.len() == 0 {
        Seq::empty()
    } else if ls.len() == 1 {
        ls[0]
    } else {
        join_comma(ls.drop_last()) + ","@ + ls.last()
    }
}

/// `n` spaces.
pub open spec fn spaces(n: nat) -> Seq<char>
    decreases n,
{
    if n == 0 {
        Seq::empty()
    } else {
        spaces((n - 1) as nat).push(' ')
    }
}

/// The text cut or padded to exactly `n` characters.
pub open spec fn fit(s: Seq<char>, n: nat) -> Seq<char> {
    if s.len() >= n {
        s.take(n as int)
    } else {
        s + spaces((n - s.len()) as nat)
    }
}

/// The text padded to at least `n` characters.
pub open spec fn pad_min(s: Seq<char>, n: nat) -> Seq<char> {
    if s.len() >= n {
        s
    } else {
        s + spaces((n - s.len()) as nat)
    }
}

/// The information-pane rendering: priority, content, labels, description
/// and due date over several lines.
pub open spec fn info_text(t: TaskView) -> Seq<char> {
    "!!"@ + priority_text(t.priority) + " - "@ + t.content + "\n@"@ + join_comma(t.labels)
        + "\n\n"@ + t.description + "\n\n---\n"@ + due_text(t.due)
}

/// The brief pane rendering: as [`info_text`], without the label line.
pub open spec fn brief_text(t: TaskView) -> Seq<char> {
    "!!"@ + priority_text(t.priority) + " - "@ + t.content + "\n\n"@ + t.description
        + "\n\n---\n"@ + due_text(t.due)
}

/// The width of the content column for a terminal this wide: six tenths of
/// the width, rounded to the nearest character.
pub open spec fn content_width(width: u16) -> nat {
    ((6 * width + 5) / 10) as nat
}

/// The width of the gap between the content and due columns: what is left
/// of the line, or two characters when the line is too narrow.
pub open spec fn spacer_width(width: u16) -> nat {
    if width >= content_width(width) + 17 {
        (width - (content_width(width) + 17)) as nat
    } else {
        2
    }
}

/// One line of the task list: the content cut or padded to its column, a
/// gap of at least one space, the due date padded to ten characters, two
/// spaces, and the priority digit.
pub open spec fn list_line(t: TaskView, width: u16) -> Seq<char> {
    let gap = if spacer_width(width) == 0 {
        1nat
    } else {
        spacer_width(width)
    };
    fit(t.content, content_width(width)) + spaces(gap) + pad_min(due_text(t.due), 10)
        + "  "@ + priority_text(t.priority)
}

/// Appends `n` spaces.
fn append_spaces(s: &mut String, n: usize)
    ensures
        final(s)@ == old(s)@ + spaces(n as nat),
{
    let mut i: usize = 0;
    proof {
        assert(s@ =~= s@ + spaces(0));
    }
    while i < n
        invariant
            i <= n,
            s@ == old(s)@ + spaces(i as nat),
        decreases n - i,
    {
        s.append(" ");
        i = i + 1;
        proof {
            reveal_strlit(" ");
            assert(" "@ =~= Seq::<char>::empty().push(' '));
            assert(old(s)@ + spaces((i - 1) as nat) + " "@ =~= old(s)@ + spaces(i as nat));
        }
    }
}

/// Appends the shown form of the due date.
fn append_due(s: &mut String, due: &Option<crate::task::Due>)
    ensures
        final(s)@ == old(s)@ + due_text(match due {
            Some(d) => Some(d@),
            None => None,
        }),
{
    match due {
        None => s.append("not due"),
        Some(d) => s.append(d.date.as_str()),
    }
}

/// Appends the priority digit.
fn append_priority(s: &mut String, p: u8)
    ensures
        final(s)@ == old(s)@ + priority_text(p),
{
    match p {
        1 => s.append("1"),
        2 => s.append("2"),
        3 => s.append("3"),
        4 => s.append("4"),
        _ => s.append("?"),
    }
}

/// Joins the labels with commas.
fn join_labels(labels: &Vec<String>) -> (r: String)
    ensures
        r@ == join_comma(labels.deep_view()),
{
    let ghost ls = labels.deep_view();
    let mut r = String::new();
    let mut i: usize = 0;
    proof {
        assert(ls.take(0) =~= Seq::<Seq<char>>::empty());
    }
    while i < labels.len()
        invariant
            i <= labels@.len(),
            ls == labels.deep_view(),
            ls.len() == labels@.len(),
            forall|j: int| 0 <= j < labels@.len() ==> ls[j] == labels@[j]@,
            r@ == join_comma(ls.take(i as int)),
        decreases labels@.len() - i,
    {
        if i > 0 {
            r.append(",");
        }
        r.append(labels[i].as_str());
        proof {
            assert(ls.take(i + 1).drop_last() =~= ls.take(i as int));
            assert(ls.take(i + 1).last() == ls[i as int]);
            if i == 0 {
                assert(join_comma(ls.take(1)) == ls[0]);
                assert(r@ =~= join_comma(ls.take(1)));
            } else {
                assert(join_comma(ls.take(i + 1)) == join_comma(ls.take(i as int)) + ","@ + ls[
                    i as int
                ]);
            }
        }
        i = i + 1;
    }
    proof {
        assert(ls.take(labels@.len() as int) =~= ls);
    }
    r
}

/// Appends the content cut or padded to exactly `n` characters.
fn append_fitted(s: &mut String, content: &String, n: usize)
    ensures
        final(s)@ == old(s)@ + fit(content@, n as nat),
{
    let len = content.as_str().unicode_len();
    if len >= n {
        let cut = content.as_str().substring_char(0, n);
        s.append(cut);
    } else {
        s.append(content.as_str());
        append_spaces(s, n - len);
    }
}

impl Task {
    /// Renders the information pane for the task: priority, content,
    /// labels, description and due date over several lines.
    pub fn to_info_string(&self) -> (r: String)
        ensures
            r@ == info_text(self@),
    {
        let mut r = String::new();
        r.append("!!");
        append_priority(&mut r, self.priority);
        r.append(" - ");
        r.append(self.content.as_str());
        r.append("\n@");
        let labels = join_labels(&self.labels);
        r.append(labels.as_str());
        r.append("\n\n");
        r.append(self.description.as_str());
        r.append("\n\n---\n");
        append_due(&mut r, &self.due);
        proof {
            assert(r@ =~= info_text(self@));
        }
        r
    }

    /// Renders the task's line of the task list for a terminal this wide.
    pub fn to_list_string(&self, width: u16) -> (r: String)
        ensures
            r@ == list_line(self@, width),
    {
        let content_len: usize = ((6 * (width as usize)) + 5) / 10;
        let spacer: usize = if (width as usize) >= content_len + 17 {
            (width as usize) - (content_len + 17)
        } else {
            2
        };
        let gap: usize = if spacer == 0 {
            1
        } else {
            spacer
        };
        let mut r = String::new();
        append_fitted(&mut r, &self.content, content_len);
        append_spaces(&mut r, gap);
        let due_start = {
            let mut d = String::new();
            append_due(&mut d, &self.due);
            d
        };
        let due_len = due_start.as_str().unicode_len();
        r.append(due_start.as_str());
        if due_len < 10 {
            append_spaces(&mut r, 10 - due_len);
        }
        r.append("  ");
        append_priority(&mut r, self.priority);
        proof {
            assert(r@ =~= list_line(self@, width));
        }
        r
    }
}

/// Renders the brief information pane: as [`Task::to_info_string`], without
/// the label line.
pub fn task_to_string(task: &Task) -> (r: String)
    ensures
        r@ == brief_text(task@),
{
    let mut r = String::new();
    r.append("!!");
    append_priority(&mut r, task.priority);
    r.append(" - ");
    r.append(task.content.as_str());
    r.append("\n\n");
    r.append(task.description.as_str());
    r.append("\n\n---\n");
    append_due(&mut r, &task.due);
    proof {
        assert(r@ =~= brief_text(task@));
    }
    r
}

/// Renders every task's list line for a terminal this wide.
pub fn tasklist_to_strings(tasklist: &Vec<Task>, width: u16) -> (r: Vec<String>)
    ensures
        r@.len() == tasklist@.len(),
        forall|i: int| 0 <= i < tasklist@.len() ==> r@[i]@ == list_line(tasklist@[i]@, width),
{
    let mut r: Vec<String> = Vec::new();
    let mut i: usize = 0;
    while i < tasklist.len()
        invariant
            i <= tasklist@.len(),
            r@.len() == i,
            forall|j: int| 0 <= j < i ==> r@[j]@ == list_line(tasklist@[j]@, width),
        decreases tasklist@.len() - i,
    {
        let line = tasklist[i].to_list_string(width);
        r.push(line);
        i = i + 1;
    }
    r
}

/// The list position after moving the selection down: unchanged at the
/// bottom, cleared for an empty list, the top for a cleared selection.
pub fn next_selection(selected: Option<usize>, len: usize) -> (r: Option<usize>)
    requires
        selected matches Some(c) ==> c < len,
    ensures
        len == 0 ==> r is None,
        len > 0 ==> {
            let c = match selected {
                Some(c) => c,
                None => 0,
            };
            r == (if c == len - 1 {
                selected
            } else {
                Some((c + 1) as usize)
            })
        },
{
    if len == 0 {
        return None;
    }
    let c = match selected {
        Some(c) => c,
        None => 0,
    };
    if c == len - 1 {
        selected
    } else {
        Some(c + 1)
    }
}

/// The list position after moving the selection up: the top stays the top,
/// cleared for an empty list, the top for a cleared selection.
pub fn prev_selection(selected: Option<usize>, len: usize) -> (r: Option<usize>)
    ensures
        len == 0 ==> r is None,
        len > 0 ==> {
            let c = match selected {
                Some(c) => c,
                None => 0,
            };
            r == (if c == 0 {
                Some(0usize)
            } else {
                Some((c - 1) as usize)
            })
        },
{
    if len == 0 {
        return None;
    }
    let c = match selected {
        Some(c) => c,
        None => 0,
    };
    if c == 0 {
        Some(0)
    } else {
        Some(c - 1)
    }
}

} // verus!
