use spacebot::agent::channel_dispatch::{
    branch_failure_text, check_worker_limit, classify_worker_completion_result, completion_flags,
    ensure_dispatch_readiness, map_worker_completion_result, reserve_worker_slot_local,
    spawn_branch_from_state, spawn_memory_persistence_branch, spawn_opencode_worker_from_state,
    spawn_worker_from_state, text_to_scrub, worker_complete_event, worker_system_prompt,
    AgentError, DispatchLimits, WorkReadiness, WorkReadinessReason, WorkerCompletionError,
    WorkerCompletionKind, WorkerError, WorkerOutcome, WorkerPrompts,
};
use spacebot::agent::channel_state::{ChannelState, RunLog};
use spacebot::agent::warmup::{WarmupConfig, WarmupState};
use spacebot::events::ProcessEvent;

fn warmup_config() -> WarmupConfig {
    WarmupConfig {
        enabled: true,
        eager_embedding_load: false,
        refresh_secs: 900,
        startup_delay_secs: 5,
    }
}

fn limits() -> DispatchLimits {
    DispatchLimits {
        max_branches: 1,
        max_workers: 1,
        readiness: WorkReadiness {
            ready: true,
            reason: None,
            warmup_state: WarmupState::Warm,
        },
        warmup_config: warmup_config(),
    }
}

fn state() -> ChannelState {
    ChannelState::new("channel".to_string(), "agent".to_string())
}

#[test]
fn cancelled_errors_are_classified_as_cancelled_results() {
    let (text, notify, success) =
        map_worker_completion_result(Err(WorkerCompletionError::Cancelled {
            reason: "user requested".to_string(),
        }));
    assert_eq!(text, "Worker cancelled: user requested");
    assert!(notify);
    assert!(!success);
}

#[test]
fn spawn_worker_task_emits_cancelled_completion_event() {
    let worker_id = uuid::Uuid::new_v4().as_u128();

    let event = worker_complete_event(
        worker_id,
        "agent".to_string(),
        Some("channel".to_string()),
        WorkerOutcome::Failed(WorkerError::Cancelled { reason: "user requested".to_string() }),
        "user requested".to_string(),
    );

    match event {
        ProcessEvent::WorkerComplete {
            worker_id: completed_worker_id,
            result,
            notify,
            success,
            ..
        } => {
            assert_eq!(completed_worker_id, worker_id);
            assert_eq!(result, "Worker cancelled: user requested");
            assert!(notify);
            assert!(!success);
        }
        other => panic!("unexpected event: {other:?}"),
    }
}

fn result_of(outcome: WorkerOutcome, scrubbed: &str) -> (String, bool) {
    match worker_complete_event(1, "agent".to_string(), None, outcome, scrubbed.to_string()) {
        ProcessEvent::WorkerComplete { result, success, .. } => (result, success),
        other => panic!("unexpected event: {other:?}"),
    }
}

#[test]
fn results_and_failures_are_scrubbed() {
    let finished = WorkerOutcome::Finished("key=1".to_string());
    assert_eq!(text_to_scrub(&finished), "key=1");
    assert_eq!(result_of(finished, "key=[REDACTED]"), ("key=[REDACTED]".to_string(), true));

    let failed = WorkerOutcome::Failed(WorkerError::Other { message: "boom".to_string() });
    assert_eq!(text_to_scrub(&failed), "boom");
    assert_eq!(result_of(failed, "b"), ("Worker failed: b".to_string(), false));

    let cancelled =
        WorkerOutcome::Failed(WorkerError::Cancelled { reason: "stop".to_string() });
    assert_eq!(text_to_scrub(&cancelled), "stop");
    assert_eq!(
        result_of(cancelled, "[REDACTED]"),
        ("Worker cancelled: [REDACTED]".to_string(), false)
    );

    let panicked = WorkerOutcome::Panicked(Some("oops".to_string()));
    assert_eq!(text_to_scrub(&panicked), "oops");
    assert_eq!(
        result_of(panicked, "[REDACTED]"),
        ("Worker failed: worker task panicked: [REDACTED]".to_string(), false)
    );
    let unknown = WorkerOutcome::Panicked(None);
    assert_eq!(text_to_scrub(&unknown), "unknown panic payload");
    assert_eq!(
        result_of(unknown, "unknown panic payload"),
        ("Worker failed: worker task panicked: unknown panic payload".to_string(), false)
    );
}

#[test]
fn completions_have_a_kind() {
    assert_eq!(
        classify_worker_completion_result(Ok("done".to_string())),
        ("done".to_string(), WorkerCompletionKind::Success)
    );
    assert_eq!(
        classify_worker_completion_result(Err(WorkerCompletionError::failed("x".to_string()))),
        ("Worker failed: x".to_string(), WorkerCompletionKind::Failed)
    );
    assert_eq!(completion_flags(WorkerCompletionKind::Success), (true, true));
    assert_eq!(completion_flags(WorkerCompletionKind::Cancelled), (true, false));
    assert_eq!(
        WorkerCompletionError::from_spacebot_error(WorkerError::Cancelled {
            reason: "r".to_string()
        }),
        WorkerCompletionError::Cancelled { reason: "r".to_string() }
    );
    assert_eq!(branch_failure_text("x"), "Branch failed: x");
}

#[test]
fn slots_are_limited() {
    assert_eq!(reserve_worker_slot_local(1, "channel", 2), Ok(()));
    assert_eq!(
        reserve_worker_slot_local(2, "channel", 2),
        Err(AgentError::WorkerLimitReached { channel_id: "channel".to_string(), max: 2 })
    );
    let mut busy = state();
    assert_eq!(check_worker_limit(&busy, 1), Ok(()));
    busy.active_workers.insert(7);
    assert_eq!(
        check_worker_limit(&busy, 1),
        Err(AgentError::WorkerLimitReached { channel_id: "channel".to_string(), max: 1 })
    );
}

#[test]
fn cold_agents_are_warmed_up_on_dispatch() {
    let cold = |state: WarmupState, reason: Option<WorkReadinessReason>| WorkReadiness {
        ready: false,
        reason,
        warmup_state: state,
    };
    assert_eq!(ensure_dispatch_readiness(limits().readiness, warmup_config(), "worker"), None);
    assert_eq!(
        ensure_dispatch_readiness(cold(WarmupState::Cold, None), warmup_config(), "worker"),
        Some("dispatch_worker".to_string())
    );
    assert_eq!(
        ensure_dispatch_readiness(cold(WarmupState::Warming, None), warmup_config(), "worker"),
        None
    );
    let embedding = cold(WarmupState::Warm, Some(WorkReadinessReason::EmbeddingNotReady));
    assert_eq!(ensure_dispatch_readiness(embedding, warmup_config(), "branch"), None);
    assert_eq!(
        ensure_dispatch_readiness(
            embedding,
            WarmupConfig { eager_embedding_load: true, ..warmup_config() },
            "branch"
        ),
        Some("dispatch_branch".to_string())
    );
}

#[test]
fn branches_are_spawned_within_their_limit() {
    let mut talking = state();
    talking.reply_target_message_id = Some("42".to_string());
    let (forced, spawned) = spawn_branch_from_state(
        &mut talking,
        5,
        "look it up".to_string(),
        Ok("system".to_string()),
        limits(),
    );
    assert_eq!(forced, None);
    let spawned = spawned.unwrap();
    assert_eq!(spawned.prompt, "look it up");
    assert_eq!(spawned.system_prompt, "system");
    assert!(matches!(
        spawned.started,
        ProcessEvent::BranchStarted { branch_id: 5, reply_to_message_id: Some(ref id), .. }
            if id == "42"
    ));
    assert!(talking.active_branches.contains(&5));
    assert_eq!(talking.status_block.active_branch_count(), 1);

    let (_, refused) = spawn_branch_from_state(
        &mut talking,
        6,
        "more".to_string(),
        Ok("system".to_string()),
        limits(),
    );
    assert!(matches!(
        refused,
        Err(AgentError::BranchLimitReached { ref channel_id, max: 1 }) if channel_id == "channel"
    ));

    let mut silent = state();
    let (_, spawned) = spawn_memory_persistence_branch(
        &mut silent,
        8,
        Ok("system".to_string()),
        Ok("save what matters".to_string()),
        limits(),
    );
    let spawned = spawned.unwrap();
    assert_eq!(spawned.description, "memory persistence");
    assert_eq!(spawned.prompt, "save what matters");
    assert_eq!(silent.status_block.active_branches[0].description, "persisting memories...");
    let (_, failed) = spawn_memory_persistence_branch(
        &mut silent,
        9,
        Err("no template".to_string()),
        Ok("save".to_string()),
        limits(),
    );
    assert!(matches!(failed, Err(AgentError::Other(ref text)) if text == "no template"));
}

fn prompts() -> WorkerPrompts {
    WorkerPrompts {
        worker_task: Ok("now: do it".to_string()),
        system_prompt: Ok("system".to_string()),
        skills: Ok("skills".to_string()),
    }
}

#[test]
fn workers_are_spawned() {
    let mut working = state();
    let (_, spawned) = spawn_worker_from_state(
        &mut working,
        3,
        "do it".to_string(),
        true,
        prompts(),
        limits(),
    );
    let spawned = spawned.unwrap();
    assert_eq!(spawned.worker_task, "now: do it");
    assert_eq!(spawned.system_prompt, "system\n\nskills");
    assert!(matches!(
        spawned.started,
        ProcessEvent::WorkerStarted { ref task, ref worker_type, .. }
            if task == "do it" && worker_type == "builtin"
    ));
    assert!(working.worker_inputs.contains(&3));
    assert!(working.worker_handles.contains(&3));
    assert!(working.status_block.is_worker_active(3));

    let broken = WorkerPrompts { system_prompt: Err("bad".to_string()), ..prompts() };
    let (_, failed) =
        spawn_worker_from_state(&mut working, 4, "x".to_string(), false, broken, limits());
    assert!(matches!(failed, Err(AgentError::Other(ref text)) if text == "bad"));
    assert!(!working.worker_handles.contains(&4));

    assert_eq!(worker_system_prompt("own".to_string(), &Ok(String::new())), "own");
    assert_eq!(worker_system_prompt("own".to_string(), &Err("bad".to_string())), "own");
}

#[test]
fn opencode_workers_must_be_enabled() {
    let mut working = state();
    let (_, refused) = spawn_opencode_worker_from_state(
        &mut working,
        3,
        "fix it",
        false,
        Ok("now: fix it".to_string()),
        false,
        limits(),
    );
    assert!(matches!(
        refused,
        Err(AgentError::Other(ref text)) if text == "OpenCode workers are not enabled in config"
    ));
    let (_, spawned) = spawn_opencode_worker_from_state(
        &mut working,
        3,
        "fix it",
        false,
        Ok("now: fix it".to_string()),
        true,
        limits(),
    );
    assert!(matches!(
        spawned.unwrap().started,
        ProcessEvent::WorkerStarted { ref task, ref worker_type, .. }
            if task == "[opencode] fix it" && worker_type == "opencode"
    ));
    assert!(!working.worker_inputs.contains(&3));
}

#[test]
fn work_is_cancelled_once() {
    let mut working = state();
    spawn_worker_from_state(&mut working, 3, "x".to_string(), true, prompts(), limits())
        .1
        .unwrap();
    let cancelled = working.cancel_worker(3).unwrap();
    assert!(cancelled.abort);
    assert_eq!(
        cancelled.log,
        RunLog::WorkerCompleted {
            worker_id: 3,
            result: "Worker cancelled".to_string(),
            success: false,
        }
    );
    assert!(!working.status_block.is_worker_active(3));
    assert_eq!(
        working.cancel_worker(3),
        Err("Worker 00000000-0000-0000-0000-000000000003 not found".to_string())
    );

    working.active_branches.insert(4);
    assert_eq!(working.cancel_branch(4), Ok(()));
    assert_eq!(
        working.cancel_branch(4),
        Err("Branch 00000000-0000-0000-0000-000000000004 not found".to_string())
    );
}
