use spacebot::agent::process_control::{
    ControlActionResult, DetachedWorkerControl, ProcessControlRegistry,
    DETACHED_WORKER_LIFECYCLE_ACTIVE, DETACHED_WORKER_LIFECYCLE_KILLING,
    DETACHED_WORKER_LIFECYCLE_TERMINAL,
};

fn fresh_id() -> u128 {
    uuid::Uuid::new_v4().as_u128()
}

#[test]
fn register_and_unregister_detached_worker() {
    let mut registry = ProcessControlRegistry::new();
    let worker_id = fresh_id();

    registry.register_detached_worker(DetachedWorkerControl::new(
        worker_id,
        "agent".to_string(),
        7,
        DETACHED_WORKER_LIFECYCLE_ACTIVE,
    ));

    assert!(registry.unregister_detached_worker(worker_id));
    assert!(!registry.unregister_detached_worker(worker_id));
}

#[test]
fn prune_dead_channels_removes_stale_entries() {
    let mut registry = ProcessControlRegistry::new();
    let channel_id = "channel-1".to_string();
    registry.register_channel(channel_id.clone(), 1);

    let pruned = registry.prune_dead_channels(&Vec::new());

    assert_eq!(pruned, 1);
    assert!(!registry.unregister_channel(&channel_id));
}

#[test]
fn cancel_missing_entries_is_idempotent_not_found() {
    let mut registry = ProcessControlRegistry::new();
    let channel_id = "missing-channel".to_string();
    let worker_id = fresh_id();

    assert_eq!(
        registry.cancel_channel_worker(&channel_id, None),
        ControlActionResult::NotFound
    );
    assert_eq!(
        registry.cancel_channel_branch(&channel_id, None),
        ControlActionResult::NotFound
    );
    assert_eq!(
        registry.cancel_detached_worker(worker_id).0,
        ControlActionResult::NotFound
    );
}

#[test]
fn cancel_detached_worker_is_single_winner_and_idempotent() {
    let mut registry = ProcessControlRegistry::new();
    let worker_id = fresh_id();

    registry.register_detached_worker(DetachedWorkerControl::new(
        worker_id,
        "agent".to_string(),
        42,
        DETACHED_WORKER_LIFECYCLE_ACTIVE,
    ));

    let (first, send_signal) = registry.cancel_detached_worker(worker_id);
    assert_eq!(first, ControlActionResult::Cancelled);
    assert!(send_signal);

    let (second, send_again) = registry.cancel_detached_worker(worker_id);
    assert_eq!(second, ControlActionResult::AlreadyTerminal);
    assert!(!send_again);

    assert_eq!(registry.detached_workers[0].lifecycle, DETACHED_WORKER_LIFECYCLE_KILLING);
}

#[test]
fn finished_workers_are_not_cancelled() {
    let mut registry = ProcessControlRegistry::new();
    registry.register_detached_worker(DetachedWorkerControl::new(
        3,
        "agent".to_string(),
        1,
        DETACHED_WORKER_LIFECYCLE_TERMINAL,
    ));
    assert_eq!(
        registry.cancel_detached_worker(3),
        (ControlActionResult::AlreadyTerminal, false)
    );
    // Registering again replaces the control.
    registry.register_detached_worker(DetachedWorkerControl::new(
        3,
        "agent".to_string(),
        1,
        DETACHED_WORKER_LIFECYCLE_ACTIVE,
    ));
    assert_eq!(registry.detached_workers.len(), 1);
    assert_eq!(registry.cancel_detached_worker(3), (ControlActionResult::Cancelled, true));
}

#[test]
fn live_channels_stay_and_answer() {
    let mut registry = ProcessControlRegistry::default();
    registry.register_channel("a".to_string(), 1);
    registry.register_channel("b".to_string(), 2);
    assert_eq!(registry.prune_dead_channels(&vec![2]), 1);
    assert_eq!(registry.channel_handle("a"), None);
    assert_eq!(registry.channel_handle("b"), Some(2));
    assert_eq!(
        registry.cancel_channel_worker("b", Some(ControlActionResult::Cancelled)),
        ControlActionResult::Cancelled
    );
    // The channel behind the handle is gone.
    assert_eq!(registry.cancel_channel_branch("b", None), ControlActionResult::NotFound);
    assert_eq!(registry.channel_handle("b"), None);
}
