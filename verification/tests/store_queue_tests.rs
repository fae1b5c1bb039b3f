//! Unit tests for the task store, the generic queue, the backoff policy
//! and the failure classification.

use task_cache::backoff::{backoff_delay, BACKOFF_CAP_MS};
use task_cache::errors::{classify_status, RemoteError};
use task_cache::queue::Queue;
use task_cache::store::TaskStore;
use task_cache::task::Task;

fn make_task(id: &str, content: &str, priority: u8) -> Task {
    Task {
        id: id.to_string(),
        content: content.to_string(),
        description: String::new(),
        checked: false,
        labels: Vec::new(),
        priority,
        due: None,
    }
}

#[test]
fn upsert_creates_then_overwrites() {
    let mut store = TaskStore::new();
    assert_eq!(store.sync_token, "*");
    store.upsert(make_task("1", "A", 1));
    store.upsert(make_task("2", "B", 1));
    store.upsert(make_task("1", "A2", 1));
    let tasks = store.snapshot();
    assert_eq!(tasks.len(), 2);
    assert_eq!(tasks[0].id, "1");
    assert_eq!(tasks[0].content, "A2");
    assert_eq!(tasks[1].id, "2");
}

#[test]
fn remove_leaves_the_rest_in_place() {
    let mut store = TaskStore::new();
    store.upsert(make_task("1", "A", 1));
    store.upsert(make_task("2", "B", 1));
    store.upsert(make_task("3", "C", 1));
    store.remove(&"2".to_string());
    let tasks = store.snapshot();
    assert_eq!(tasks.len(), 2);
    assert_eq!(tasks[0].id, "1");
    assert_eq!(tasks[1].id, "3");
    assert!(!store.contains(&"2".to_string()));
    assert!(store.contains(&"1".to_string()));
    // Removing an absent id changes nothing.
    store.remove(&"7".to_string());
    assert_eq!(store.snapshot().len(), 2);
}

#[test]
fn replace_all_discards_prior_entries() {
    let mut store = TaskStore::new();
    store.upsert(make_task("1", "A", 1));
    store.replace_all(
        vec![make_task("5", "E", 1), make_task("6", "F", 1)],
        "tok9".to_string(),
    );
    let tasks = store.snapshot();
    assert_eq!(tasks.len(), 2);
    assert!(tasks.iter().all(|t| t.id != "1"));
    assert_eq!(store.sync_token, "tok9");
}

#[test]
fn apply_delta_upserts_by_id() {
    let mut store = TaskStore::new();
    store.replace_all(
        vec![make_task("1", "A", 1), make_task("2", "B", 1)],
        "tok1".to_string(),
    );
    store.apply_delta(
        vec![make_task("2", "B2", 1), make_task("3", "C", 1)],
        "tok2".to_string(),
    );
    let tasks = store.snapshot();
    assert_eq!(tasks.len(), 3);
    assert_eq!(
        tasks.iter().find(|t| t.id == "2").unwrap().content,
        "B2"
    );
    assert_eq!(store.sync_token, "tok2");
}

#[test]
fn snapshot_sorts_by_priority_descending_stably() {
    let mut store = TaskStore::new();
    store.replace_all(
        vec![
            make_task("a", "low", 1),
            make_task("b", "high-first", 4),
            make_task("c", "mid", 2),
            make_task("d", "high-second", 4),
        ],
        "tok".to_string(),
    );
    let tasks = store.snapshot();
    let ids: Vec<&str> = tasks.iter().map(|t| t.id.as_str()).collect();
    // Priority 4 first in server order, then 2, then 1.
    assert_eq!(ids, vec!["b", "d", "c", "a"]);
}

#[test]
fn queue_is_first_in_first_out() {
    let mut q: Queue<u32> = Queue::new();
    assert_eq!(q.len(), 0);
    assert_eq!(q.dequeue(), None);
    q.enqueue(10);
    q.enqueue(20);
    q.enqueue(30);
    assert_eq!(q.len(), 3);
    assert_eq!(q.dequeue(), Some(10));
    assert_eq!(q.dequeue(), Some(20));
    assert_eq!(q.dequeue(), Some(30));
    assert_eq!(q.dequeue(), None);
}

#[test]
fn backoff_doubles_and_caps() {
    assert_eq!(backoff_delay(0), 1000);
    assert_eq!(backoff_delay(1), 2000);
    assert_eq!(backoff_delay(2), 4000);
    assert_eq!(backoff_delay(3), 8000);
    assert_eq!(backoff_delay(4), 16000);
    assert_eq!(backoff_delay(5), 30000);
    assert_eq!(backoff_delay(6), 30000);
    assert_eq!(backoff_delay(u32::MAX), BACKOFF_CAP_MS);
    // Never decreasing.
    let mut last = 0;
    for attempt in 0..12 {
        let d = backoff_delay(attempt);
        assert!(d >= last);
        assert!(d <= BACKOFF_CAP_MS);
        last = d;
    }
}

#[test]
fn status_codes_classify_by_taxonomy() {
    assert_eq!(classify_status(400), RemoteError::BadRequest);
    assert_eq!(classify_status(401), RemoteError::AuthFailed);
    assert_eq!(classify_status(403), RemoteError::AuthFailed);
    assert_eq!(classify_status(404), RemoteError::BadRequest);
    assert_eq!(classify_status(429), RemoteError::RateLimited);
    assert_eq!(classify_status(500), RemoteError::ServerError);
    assert_eq!(classify_status(599), RemoteError::ServerError);
    assert_eq!(classify_status(0), RemoteError::Network);
    assert_eq!(classify_status(300), RemoteError::Network);
    assert!(RemoteError::Network.is_retryable());
    assert!(RemoteError::ServerError.is_retryable());
    assert!(RemoteError::RateLimited.is_retryable());
    assert!(!RemoteError::AuthFailed.is_retryable());
    assert!(!RemoteError::BadRequest.is_retryable());
    assert!(!RemoteError::MalformedResponse.is_retryable());
}
