//! Tests for the plain-text task renderings and the list-view helpers.

use task_cache::render::{next_selection, prev_selection, task_to_string, tasklist_to_strings};
use task_cache::task::{Due, Task};

fn full_task() -> Task {
    Task {
        id: "1".to_string(),
        content: "Write the report".to_string(),
        description: "with charts".to_string(),
        checked: false,
        labels: vec!["work".to_string(), "urgent".to_string()],
        priority: 3,
        due: Some(Due {
            date: "2024-01-15".to_string(),
            string: "monday".to_string(),
        }),
    }
}

#[test]
fn info_string_lays_out_every_field() {
    let expected = format!(
        "!!{} - {}\n@{}\n\n{}\n\n---\n{}",
        3, "Write the report", "work,urgent", "with charts", "2024-01-15",
    );
    assert_eq!(full_task().to_info_string(), expected);
}

#[test]
fn info_string_shows_not_due_without_a_date() {
    let mut task = full_task();
    task.due = None;
    task.labels = Vec::new();
    let expected = format!(
        "!!{} - {}\n@{}\n\n{}\n\n---\n{}",
        3, "Write the report", "", "with charts", "not due",
    );
    assert_eq!(task.to_info_string(), expected);
}

#[test]
fn brief_string_omits_the_label_line() {
    let expected = format!(
        "!!{} - {}\n\n{}\n\n---\n{}",
        3, "Write the report", "with charts", "2024-01-15",
    );
    assert_eq!(task_to_string(&full_task()), expected);
}

#[test]
fn list_string_pads_the_columns() {
    // At width 60 the content column is 36 wide and the gap 7.
    let line = full_task().to_list_string(60);
    let expected = format!(
        "{:36}{:7}{:10}  {:1}",
        "Write the report", " ", "2024-01-15", 3,
    );
    assert_eq!(line, expected);
}

#[test]
fn list_string_cuts_long_content_and_keeps_a_gap_when_narrow() {
    let mut task = full_task();
    task.content = "An unreasonably long task description line".to_string();
    task.due = None;
    // At width 20 the content column is 12 wide; the width has no room
    // left, so the gap falls back to two spaces.
    let line = task.to_list_string(20);
    let expected = format!("{:12}{:2}{:10}  {:1}", "An unreasona", " ", "not due", 3);
    assert_eq!(line, expected);
}

#[test]
fn tasklist_renders_line_per_task() {
    let mut other = full_task();
    other.id = "2".to_string();
    other.content = "Short".to_string();
    let lines = tasklist_to_strings(&vec![full_task(), other.clone()], 60);
    assert_eq!(lines.len(), 2);
    assert_eq!(lines[0], full_task().to_list_string(60));
    assert_eq!(lines[1], other.to_list_string(60));
}

#[test]
fn selection_moves_within_bounds() {
    assert_eq!(next_selection(None, 0), None);
    assert_eq!(prev_selection(None, 0), None);
    assert_eq!(next_selection(None, 3), Some(1));
    assert_eq!(next_selection(Some(0), 3), Some(1));
    assert_eq!(next_selection(Some(2), 3), Some(2));
    assert_eq!(prev_selection(None, 3), Some(0));
    assert_eq!(prev_selection(Some(0), 3), Some(0));
    assert_eq!(prev_selection(Some(2), 3), Some(1));
}

#[test]
fn task_helpers_expose_their_fields() {
    let task = full_task();
    assert_eq!(task.get_id(), "1");
    let (id, content, description, labels, date, priority) = task.get_details();
    assert_eq!(id, "1");
    assert_eq!(content, "Write the report");
    assert_eq!(description, "with charts");
    assert_eq!(labels, vec!["work".to_string(), "urgent".to_string()]);
    assert_eq!(date, "2024-01-15");
    assert_eq!(priority, 3);

    let built = Task::create_task_obj(
        "9".to_string(),
        "c".to_string(),
        "d".to_string(),
        "2024-02-02".to_string(),
        vec!["l".to_string()],
        9,
    );
    assert_eq!(built.priority, 4);
    assert!(!built.checked);
    assert_eq!(built.due.as_ref().unwrap().date, "2024-02-02");
    assert_eq!(built.due.as_ref().unwrap().string, "");
    let clamped_low = Task::create_task_obj(
        "9".to_string(),
        "c".to_string(),
        "d".to_string(),
        String::new(),
        Vec::new(),
        0,
    );
    assert_eq!(clamped_low.priority, 1);
    assert!(full_task().is_valid());
    assert!(!make_invalid().is_valid());
}

fn make_invalid() -> Task {
    let mut t = full_task();
    t.id = String::new();
    t
}
