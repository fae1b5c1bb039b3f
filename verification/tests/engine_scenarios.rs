//! End-to-end scenarios driving the sync engine through the cache facade,
//! with the test itself standing in for the remote service.

use task_cache::cache::LocalCache;
use task_cache::engine::{Dispatch, HandleState};
use task_cache::errors::RemoteError;
use task_cache::task::Task;

fn make_task(id: &str, content: &str, priority: u8) -> Task {
    Task {
        id: id.to_string(),
        content: content.to_string(),
        description: String::new(),
        checked: false,
        labels: Vec::new(),
        priority,
        due: None,
    }
}

#[test]
fn full_sync_fills_empty_store() {
    let mut cache = LocalCache::new("SECRET-REDACTED".to_string());
    assert!(cache.get_tasks().is_empty());

    let h = cache.force_sync();
    let (handle, dispatch) = cache.engine.next_dispatch(0).expect("a sync must dispatch");
    assert_eq!(handle, h);
    match dispatch {
        Dispatch::FetchDelta { sync_token } => assert_eq!(sync_token, "*"),
        _ => panic!("a full sync must fetch"),
    }

    let ok = cache
        .engine
        .on_sync_success(h, vec![make_task("1", "A", 1)], "tok1".to_string());
    assert!(ok);

    let tasks = cache.get_tasks();
    assert_eq!(tasks.len(), 1);
    assert_eq!(tasks[0].id, "1");
    assert_eq!(tasks[0].content, "A");
    assert_eq!(cache.engine.store.sync_token, "tok1");
    assert_eq!(cache.poll(h), HandleState::Done);
}

#[test]
fn quick_add_appears_after_confirmation() {
    let mut cache = LocalCache::new("SECRET-REDACTED".to_string());
    let h = cache.add_task("Buy milk".to_string());
    assert_eq!(cache.poll(h), HandleState::Pending);

    let (handle, dispatch) = cache.engine.next_dispatch(0).expect("the create must dispatch");
    assert_eq!(handle, h);
    match dispatch {
        Dispatch::QuickAddCall { text, token } => {
            assert_eq!(text, "Buy milk");
            assert_eq!(token.len(), 36);
        }
        _ => panic!("a quick add must call quick add"),
    }

    assert!(cache.engine.on_quick_add_success(h, make_task("2", "Buy milk", 1)));
    let tasks = cache.get_tasks();
    assert!(tasks.iter().any(|t| t.id == "2"));
    assert_eq!(cache.poll(h), HandleState::Done);
}

#[test]
fn complete_retries_with_growing_delays_then_succeeds() {
    let mut cache = LocalCache::new("SECRET-REDACTED".to_string());
    let hs = cache.force_sync();
    cache.engine.next_dispatch(0).unwrap();
    assert!(cache
        .engine
        .on_sync_success(hs, vec![make_task("1", "A", 1)], "tok1".to_string()));

    let h = cache.complete_task(make_task("1", "A", 1)).unwrap();

    // First attempt at t=0 fails with a server error: retry after 1s.
    let (handle, _) = cache.engine.next_dispatch(0).unwrap();
    assert_eq!(handle, h);
    assert!(cache.engine.on_failure(h, RemoteError::ServerError, 0));
    assert!(cache.engine.next_dispatch(999).is_none());

    // Second attempt at t=1000 fails again: retry after 2s more.
    let (handle, _) = cache.engine.next_dispatch(1000).expect("the first backoff is one second");
    assert_eq!(handle, h);
    assert!(cache.engine.on_failure(h, RemoteError::ServerError, 1000));
    assert!(cache.engine.next_dispatch(2999).is_none());

    // Third attempt at t=3000 succeeds; the task is gone.
    let (handle, _) = cache.engine.next_dispatch(3000).expect("the second backoff is two seconds");
    assert_eq!(handle, h);
    assert!(cache.engine.on_complete_success(h));
    assert!(cache.get_tasks().iter().all(|t| t.id != "1"));
    assert_eq!(cache.poll(h), HandleState::Done);
}

#[test]
fn edit_applies_before_complete_on_the_same_task() {
    let mut cache = LocalCache::new("SECRET-REDACTED".to_string());
    let hs = cache.force_sync();
    cache.engine.next_dispatch(0).unwrap();
    assert!(cache
        .engine
        .on_sync_success(hs, vec![make_task("1", "A", 1)], "tok1".to_string()));

    let h_edit = cache.edit_task(make_task("1", "B", 1)).unwrap();
    let h_complete = cache.complete_task(make_task("1", "B", 1)).unwrap();

    // The edit dispatches first, and while it is in flight the completion
    // on the same task stays blocked: the lane is exclusive.
    let (handle, dispatch) = cache.engine.next_dispatch(0).unwrap();
    assert_eq!(handle, h_edit);
    match dispatch {
        Dispatch::EditCall { task, .. } => assert_eq!(task.content, "B"),
        _ => panic!("the edit was enqueued first"),
    }
    assert!(cache.engine.next_dispatch(0).is_none());

    assert!(cache.engine.on_edit_success(h_edit));
    let tasks = cache.get_tasks();
    assert_eq!(tasks.len(), 1);
    assert_eq!(tasks[0].content, "B");

    // Only now may the completion go out.
    let (handle, dispatch) = cache.engine.next_dispatch(0).unwrap();
    assert_eq!(handle, h_complete);
    assert!(matches!(dispatch, Dispatch::CompleteCall { .. }));
    assert!(cache.engine.on_complete_success(h_complete));
    assert!(cache.get_tasks().is_empty());
}

#[test]
fn auth_failure_halts_dispatching_until_force_sync() {
    let mut cache = LocalCache::new("SECRET-REDACTED".to_string());
    let h = cache.add_task("first".to_string());
    let (handle, _) = cache.engine.next_dispatch(0).unwrap();
    assert_eq!(handle, h);
    assert!(cache.engine.on_failure(h, RemoteError::AuthFailed, 0));
    assert_eq!(cache.poll(h), HandleState::Failed(RemoteError::AuthFailed));

    // Everything enqueued afterwards stays queued: nothing dispatches.
    let h2 = cache.add_task("second".to_string());
    assert!(cache.engine.next_dispatch(1).is_none());
    assert!(cache.engine.next_dispatch(1_000_000).is_none());
    assert_eq!(cache.poll(h2), HandleState::Pending);

    // A forced sync restarts the engine.
    let h3 = cache.force_sync();
    let (handle, _) = cache.engine.next_dispatch(1_000_001).expect("resumed");
    assert!(handle == h2 || handle == h3);
}

#[test]
fn retry_reuses_the_same_idempotency_token() {
    let mut cache = LocalCache::new("SECRET-REDACTED".to_string());
    let hs = cache.force_sync();
    cache.engine.next_dispatch(0).unwrap();
    assert!(cache
        .engine
        .on_sync_success(hs, vec![make_task("1", "A", 1)], "tok1".to_string()));
    let h = cache.complete_task(make_task("1", "A", 1)).unwrap();

    // A mock service that rejects a token it has already seen.
    let mut seen_tokens: Vec<String> = Vec::new();
    let mut effects: u32 = 0;

    for round in 0..3u32 {
        let now = match round {
            0 => 0,
            1 => 1000,
            _ => 3000,
        };
        let (handle, dispatch) = cache.engine.next_dispatch(now).unwrap();
        assert_eq!(handle, h);
        let token = match dispatch {
            Dispatch::CompleteCall { token, .. } => token,
            _ => panic!("a completion must call complete"),
        };
        if !seen_tokens.contains(&token) {
            seen_tokens.push(token);
            effects += 1;
        }
        if round < 2 {
            assert!(cache.engine.on_failure(h, RemoteError::Network, now));
        } else {
            assert!(cache.engine.on_complete_success(h));
        }
    }

    // Three submissions, one token, one effective mutation.
    assert_eq!(seen_tokens.len(), 1);
    assert_eq!(effects, 1);
}

#[test]
fn full_resync_replaces_the_whole_store() {
    let mut cache = LocalCache::new("SECRET-REDACTED".to_string());
    let h1 = cache.force_sync();
    cache.engine.next_dispatch(0).unwrap();
    assert!(cache.engine.on_sync_success(
        h1,
        vec![make_task("1", "A", 1), make_task("2", "B", 2)],
        "tok1".to_string(),
    ));
    assert_eq!(cache.get_tasks().len(), 2);

    let h2 = cache.force_sync();
    let (_, dispatch) = cache.engine.next_dispatch(0).unwrap();
    match dispatch {
        Dispatch::FetchDelta { sync_token } => assert_eq!(sync_token, "*"),
        _ => panic!("a full sync must fetch"),
    }
    assert!(cache
        .engine
        .on_sync_success(h2, vec![make_task("3", "C", 1)], "tok2".to_string()));

    let tasks = cache.get_tasks();
    assert_eq!(tasks.len(), 1);
    assert_eq!(tasks[0].id, "3");
    assert_eq!(cache.engine.store.sync_token, "tok2");
}

#[test]
fn delta_sync_upserts_without_discarding() {
    let mut cache = LocalCache::new("SECRET-REDACTED".to_string());
    let h1 = cache.force_sync();
    cache.engine.next_dispatch(0).unwrap();
    assert!(cache.engine.on_sync_success(
        h1,
        vec![make_task("1", "A", 1), make_task("2", "B", 2)],
        "tok1".to_string(),
    ));

    let h2 = cache.refresh();
    let (_, dispatch) = cache.engine.next_dispatch(0).unwrap();
    match dispatch {
        Dispatch::FetchDelta { sync_token } => assert_eq!(sync_token, "tok1"),
        _ => panic!("a delta sync must fetch"),
    }
    assert!(cache.engine.on_sync_success(
        h2,
        vec![make_task("2", "B changed", 2), make_task("3", "C", 3)],
        "tok2".to_string(),
    ));

    let tasks = cache.get_tasks();
    assert_eq!(tasks.len(), 3);
    let b = tasks.iter().find(|t| t.id == "2").unwrap();
    assert_eq!(b.content, "B changed");
    assert!(tasks.iter().any(|t| t.id == "1"));
    assert!(tasks.iter().any(|t| t.id == "3"));
}

#[test]
fn rate_limit_cools_down_every_lane() {
    let mut cache = LocalCache::new("SECRET-REDACTED".to_string());
    let h1 = cache.add_task("one".to_string());
    let _h2 = cache.add_task("two".to_string());

    let (handle, _) = cache.engine.next_dispatch(0).unwrap();
    assert_eq!(handle, h1);
    assert!(cache.engine.on_failure(h1, RemoteError::RateLimited, 0));

    // The second create targets an independent lane, yet nothing at all
    // dispatches until the engine-wide cooldown has passed.
    assert!(cache.engine.next_dispatch(59_999).is_none());
    assert!(cache.engine.next_dispatch(60_000).is_some());
}

#[test]
fn malformed_sync_response_fails_only_that_action() {
    let mut cache = LocalCache::new("SECRET-REDACTED".to_string());
    let h1 = cache.force_sync();
    let h2 = cache.add_task("fine".to_string());

    let (handle, _) = cache.engine.next_dispatch(0).unwrap();
    assert_eq!(handle, h1);
    // An item without a server id cannot be stored: the response is
    // malformed, and only the sync action fails.
    assert!(cache
        .engine
        .on_sync_success(h1, vec![make_task("", "bad", 1)], "tok1".to_string()));
    assert_eq!(
        cache.poll(h1),
        HandleState::Failed(RemoteError::MalformedResponse)
    );
    assert!(cache.get_tasks().is_empty());

    let (handle, _) = cache.engine.next_dispatch(0).unwrap();
    assert_eq!(handle, h2);
}

#[test]
fn bad_request_fails_one_action_and_frees_its_lane() {
    let mut cache = LocalCache::new("SECRET-REDACTED".to_string());
    let hs = cache.force_sync();
    cache.engine.next_dispatch(0).unwrap();
    assert!(cache
        .engine
        .on_sync_success(hs, vec![make_task("1", "A", 1)], "tok1".to_string()));

    let h_edit = cache.edit_task(make_task("1", "B", 1)).unwrap();
    let h_complete = cache.complete_task(make_task("1", "B", 1)).unwrap();

    let (handle, _) = cache.engine.next_dispatch(0).unwrap();
    assert_eq!(handle, h_edit);
    assert!(cache.engine.on_failure(h_edit, RemoteError::BadRequest, 0));
    assert_eq!(cache.poll(h_edit), HandleState::Failed(RemoteError::BadRequest));

    // The lane moves on to the next action for that task.
    let (handle, _) = cache.engine.next_dispatch(0).unwrap();
    assert_eq!(handle, h_complete);
}

#[test]
fn background_sync_never_drops_an_in_flight_edit() {
    let mut cache = LocalCache::new("SECRET-REDACTED".to_string());
    let hs = cache.force_sync();
    cache.engine.next_dispatch(0).unwrap();
    assert!(cache
        .engine
        .on_sync_success(hs, vec![make_task("1", "A", 1)], "tok1".to_string()));

    // An edit goes out; a background refresh runs concurrently in its own
    // lane and overwrites the task underneath it.
    let h_edit = cache.edit_task(make_task("1", "B", 1)).unwrap();
    let h_sync = cache.refresh();
    let (handle, _) = cache.engine.next_dispatch(0).unwrap();
    assert_eq!(handle, h_edit);
    let (handle, _) = cache.engine.next_dispatch(0).unwrap();
    assert_eq!(handle, h_sync);

    assert!(cache.engine.on_sync_success(
        h_sync,
        vec![make_task("1", "A refreshed", 1)],
        "tok2".to_string(),
    ));
    assert_eq!(cache.get_tasks()[0].content, "A refreshed");

    // The edit is still pending and applies on top of the refreshed state.
    assert_eq!(cache.poll(h_edit), HandleState::Pending);
    assert!(cache.engine.on_edit_success(h_edit));
    assert_eq!(cache.get_tasks()[0].content, "B");
}

#[test]
fn independent_lanes_fly_concurrently() {
    let mut cache = LocalCache::new("SECRET-REDACTED".to_string());
    let hs = cache.force_sync();
    cache.engine.next_dispatch(0).unwrap();
    assert!(cache.engine.on_sync_success(
        hs,
        vec![make_task("1", "A", 1), make_task("2", "B", 1)],
        "tok1".to_string(),
    ));

    // Completions of two different tasks both dispatch before either
    // result lands; a second completion of task one stays blocked.
    let h1 = cache.complete_task(make_task("1", "A", 1)).unwrap();
    let h2 = cache.complete_task(make_task("2", "B", 1)).unwrap();
    let (first, _) = cache.engine.next_dispatch(0).unwrap();
    let (second, _) = cache.engine.next_dispatch(0).unwrap();
    assert_eq!(first, h1);
    assert_eq!(second, h2);
    assert!(cache.engine.next_dispatch(0).is_none());

    assert!(cache.engine.on_complete_success(h2));
    assert!(cache.engine.on_complete_success(h1));
    assert!(cache.get_tasks().is_empty());
}

#[test]
fn facade_rejects_unusable_input_up_front() {
    let mut cache = LocalCache::new("SECRET-REDACTED".to_string());
    assert_eq!(
        cache.complete_task(make_task("", "A", 1)),
        Err(RemoteError::BadRequest)
    );
    assert_eq!(
        cache.edit_task(make_task("1", "A", 9)),
        Err(RemoteError::BadRequest)
    );
    assert_eq!(cache.poll(77), HandleState::Unknown);
}
