use spacebot::agent::association::AssociationPass;
use spacebot::agent::bulletin::{
    active_task_statuses, bulletin_section, count_sections, count_words, first_line_of,
    gather_active_tasks, gather_bulletin_sections, BulletinBoard, FoundMemory, MemoryType,
    SearchMode, SearchSort, BULLETIN_SECTION_COUNT,
};
use spacebot::agent::cortex::{
    handle_cortex_receiver_result, push_signal_into_buffer, signal_from_event, startup_step,
    summarize_signal_text, Cortex, CortexConfig, CortexEventRow, CortexLoop,
    CortexReceiverOutcome, LoopStep, ReceiverClosedBehavior, RefreshEnd, Signal, StartupStep,
    TickPlan, SIGNAL_BUFFER_CAPACITY,
};
use spacebot::agent::cortex_log::Detail;
use spacebot::agent::profile::{
    empty_to_none, profile_failed, profile_generated, AgentProfileRow,
};
use spacebot::agent::tasks::{Subtask, Task, TaskStatus};
use spacebot::agent::warmup::{
    apply_cancelled_warmup_status, apply_cancelled_warmup_status_at, begin_warmup,
    bulletin_age_secs, bulletin_age_secs_at, bulletin_refresh_outcome, cool_down, finish_warmup,
    forced_warmup_reason, has_completed_initial_warmup, should_execute_warmup,
    should_generate_bulletin_at, should_generate_bulletin_from_bulletin_loop,
    BulletinRefreshOutcome, WarmupConfig, WarmupLoop, WarmupState, WarmupStatus, WarmupWait,
};
use spacebot::clock::Timestamp;
use spacebot::events::{
    drain_lag_warning_count, summarize_first_non_empty_line, Fraction, ProcessEvent, ProcessId,
    RecvError, EVENT_SUMMARY_MAX_CHARS,
};
use std::collections::VecDeque;

fn fresh_id() -> u128 {
    uuid::Uuid::new_v4().as_u128()
}

fn fraction(value: f32) -> Fraction {
    Fraction { bits: value.to_bits() }
}

fn warmup_config() -> WarmupConfig {
    WarmupConfig {
        enabled: true,
        eager_embedding_load: true,
        refresh_secs: 900,
        startup_delay_secs: 5,
    }
}

#[test]
fn run_warmup_once_semantics_skip_when_disabled_without_force() {
    let warmup_config = WarmupConfig { enabled: false, ..warmup_config() };

    assert!(!should_execute_warmup(warmup_config, false));
}

#[test]
fn run_warmup_once_semantics_force_overrides_disabled_config() {
    let warmup_config = WarmupConfig { enabled: false, ..warmup_config() };

    assert!(should_execute_warmup(warmup_config, true));
}

#[test]
fn run_warmup_once_semantics_enabled_runs_without_force() {
    let warmup_config = WarmupConfig { enabled: true, ..warmup_config() };

    assert!(should_execute_warmup(warmup_config, false));
}

#[test]
fn initial_warmup_completion_detected_when_status_has_refresh_timestamp() {
    let status = WarmupStatus {
        state: WarmupState::Warm,
        last_refresh_unix_ms: Some(1_700_000_000_000),
        ..Default::default()
    };

    assert!(has_completed_initial_warmup(&status));
}

#[test]
fn initial_warmup_completion_not_detected_without_refresh_timestamp() {
    let status = WarmupStatus::default();

    assert!(!has_completed_initial_warmup(&status));
}

#[test]
fn initial_warmup_completion_not_detected_when_timestamp_exists_but_state_is_not_warm() {
    let status = WarmupStatus {
        state: WarmupState::Cold,
        last_refresh_unix_ms: Some(1_700_000_000_000),
        ..Default::default()
    };

    assert!(!has_completed_initial_warmup(&status));
}

#[test]
fn cancelled_warmup_demotes_warming_state_to_degraded() {
    let mut status = WarmupStatus { state: WarmupState::Warming, ..Default::default() };

    let changed = apply_cancelled_warmup_status(&mut status, "startup", false);

    assert!(changed);
    assert_eq!(status.state, WarmupState::Degraded);
    assert!(status
        .last_error
        .as_deref()
        .is_some_and(|error| error.contains("warmup cancelled before completion")));
}

#[test]
fn cancelled_warmup_does_not_override_terminal_state() {
    let mut status = WarmupStatus {
        state: WarmupState::Warm,
        last_refresh_unix_ms: Some(1_700_000_000_000),
        ..Default::default()
    };

    let changed = apply_cancelled_warmup_status(&mut status, "scheduled", false);

    assert!(!changed);
    assert_eq!(status.state, WarmupState::Warm);
}

#[test]
fn bulletin_loop_generation_runs_when_warmup_disabled() {
    let warmup_config = WarmupConfig { enabled: false, ..warmup_config() };
    let status = WarmupStatus { bulletin_age_secs: Some(0), ..Default::default() };

    assert!(should_generate_bulletin_from_bulletin_loop(warmup_config, &status));
}

#[test]
fn bulletin_loop_generation_skips_when_warmup_enabled_and_fresh() {
    let warmup_config = WarmupConfig { enabled: true, refresh_secs: 900, ..warmup_config() };
    let status = WarmupStatus { bulletin_age_secs: Some(10), ..Default::default() };

    assert!(!should_generate_bulletin_from_bulletin_loop(warmup_config, &status));
}

#[test]
fn bulletin_loop_generation_runs_when_warmup_enabled_and_stale() {
    let warmup_config = WarmupConfig { enabled: true, refresh_secs: 900, ..warmup_config() };
    let status = WarmupStatus { bulletin_age_secs: Some(901), ..Default::default() };

    assert!(should_generate_bulletin_from_bulletin_loop(warmup_config, &status));
}

#[test]
fn bulletin_loop_generation_lock_snapshot_skips_after_fresh_update() {
    let stale = WarmupStatus { bulletin_age_secs: Some(901), ..Default::default() };
    assert!(should_generate_bulletin_from_bulletin_loop(warmup_config(), &stale));

    // The refresh lands before the lock is released.
    let status = WarmupStatus { bulletin_age_secs: Some(10), ..Default::default() };
    assert!(!should_generate_bulletin_from_bulletin_loop(warmup_config(), &status));
    let result = bulletin_refresh_outcome(warmup_config(), &status, 0, true);
    assert_eq!(result, BulletinRefreshOutcome::SkippedFresh);
}

#[test]
fn summarize_signal_text_uses_first_non_empty_line() {
    let text = "\n\nfirst line\nsecond line";
    assert_eq!(summarize_signal_text(text), "first line");
}

#[test]
fn summarize_signal_text_truncates_long_text() {
    let text = "a".repeat(200);
    let summary = summarize_signal_text(&text);
    assert_eq!(summary.chars().count(), EVENT_SUMMARY_MAX_CHARS);
}

#[test]
fn signal_from_event_maps_memory_saved_values() {
    let event = ProcessEvent::MemorySaved {
        agent_id: "agent".to_string(),
        memory_id: "mem-1".to_string(),
        channel_id: Some("channel-1".to_string()),
        memory_type: "decision".to_string(),
        importance: fraction(0.92),
        content_summary: "persisted decision".to_string(),
    };

    let signal = signal_from_event(event);
    match signal {
        Signal::MemorySaved { memory_id, channel_id, memory_type, content_summary, importance } => {
            assert_eq!(memory_id, "mem-1");
            assert_eq!(channel_id.as_deref(), Some("channel-1"));
            assert_eq!(memory_type, "decision");
            assert_eq!(content_summary, "persisted decision");
            assert_eq!(f32::from_bits(importance.bits), 0.92);
        }
        _ => panic!("expected memory-saved signal"),
    }
}

#[test]
fn signal_from_event_handles_every_process_event_variant() {
    let agent_id = "agent".to_string();
    let channel_id = "channel".to_string();
    let worker_id = fresh_id();
    let branch_id = fresh_id();

    let events = vec![
        ProcessEvent::BranchStarted {
            agent_id: agent_id.clone(),
            branch_id,
            channel_id: channel_id.clone(),
            description: "branch start".to_string(),
            reply_to_message_id: Some("message-1".to_string()),
        },
        ProcessEvent::BranchResult {
            agent_id: agent_id.clone(),
            branch_id,
            channel_id: channel_id.clone(),
            conclusion: "branch done".to_string(),
        },
        ProcessEvent::WorkerStarted {
            agent_id: agent_id.clone(),
            worker_id,
            channel_id: Some(channel_id.clone()),
            task: "do work".to_string(),
            worker_type: "shell".to_string(),
        },
        ProcessEvent::WorkerStatus {
            agent_id: agent_id.clone(),
            worker_id,
            channel_id: Some(channel_id.clone()),
            status: "running".to_string(),
        },
        ProcessEvent::WorkerComplete {
            agent_id: agent_id.clone(),
            worker_id,
            channel_id: Some(channel_id.clone()),
            result: "ok".to_string(),
            notify: false,
            success: true,
        },
        ProcessEvent::ToolStarted {
            agent_id: agent_id.clone(),
            process_id: ProcessId::Worker(worker_id),
            channel_id: Some(channel_id.clone()),
            tool_name: "shell".to_string(),
            args: "echo hi".to_string(),
        },
        ProcessEvent::ToolCompleted {
            agent_id: agent_id.clone(),
            process_id: ProcessId::Worker(worker_id),
            channel_id: Some(channel_id.clone()),
            tool_name: "shell".to_string(),
            result: "done".to_string(),
        },
        ProcessEvent::MemorySaved {
            agent_id: agent_id.clone(),
            memory_id: "memory-1".to_string(),
            channel_id: Some(channel_id.clone()),
            memory_type: "fact".to_string(),
            importance: fraction(0.6),
            content_summary: "saved memory".to_string(),
        },
        ProcessEvent::CompactionTriggered {
            agent_id: agent_id.clone(),
            channel_id: channel_id.clone(),
            threshold_reached: fraction(0.86),
        },
        ProcessEvent::StatusUpdate {
            agent_id: agent_id.clone(),
            process_id: ProcessId::Worker(worker_id),
            status: "active".to_string(),
        },
        ProcessEvent::WorkerPermission {
            agent_id: agent_id.clone(),
            worker_id,
            channel_id: Some(channel_id.clone()),
            permission_id: "perm-1".to_string(),
            description: "allow network".to_string(),
            patterns: vec!["https://example.com".to_string()],
        },
        ProcessEvent::WorkerQuestion {
            agent_id: agent_id.clone(),
            worker_id,
            channel_id: Some(channel_id.clone()),
            question_id: "q-1".to_string(),
            questions: vec![],
        },
        ProcessEvent::AgentMessageSent {
            from_agent_id: agent_id.clone(),
            to_agent_id: "agent-2".to_string(),
            link_id: "link-1".to_string(),
            channel_id: channel_id.clone(),
        },
        ProcessEvent::AgentMessageReceived {
            from_agent_id: "agent-2".to_string(),
            to_agent_id: agent_id,
            link_id: "link-1".to_string(),
            channel_id: channel_id.clone(),
        },
        ProcessEvent::TaskUpdated {
            agent_id: "agent".to_string(),
            task_number: 7,
            status: "created".to_string(),
            action: "created".to_string(),
        },
    ];

    for event in events {
        let _signal = signal_from_event(event);
    }
}

#[test]
fn push_signal_into_buffer_coalesces_status_updates_for_same_process() {
    let mut buffer = VecDeque::new();
    let process_id = ProcessId::Worker(fresh_id());

    push_signal_into_buffer(
        &mut buffer,
        Signal::StatusUpdate { process_id: process_id.clone(), status: "running".to_string() },
    );
    push_signal_into_buffer(
        &mut buffer,
        Signal::StatusUpdate { process_id, status: "done".to_string() },
    );

    assert_eq!(buffer.len(), 1);
    match buffer.back() {
        Some(Signal::StatusUpdate { status, .. }) => assert_eq!(status, "done"),
        _ => panic!("expected status-update signal"),
    }
}

#[test]
fn push_signal_into_buffer_keeps_distinct_status_updates() {
    let mut buffer = VecDeque::new();

    push_signal_into_buffer(
        &mut buffer,
        Signal::StatusUpdate {
            process_id: ProcessId::Worker(fresh_id()),
            status: "running".to_string(),
        },
    );
    push_signal_into_buffer(
        &mut buffer,
        Signal::StatusUpdate {
            process_id: ProcessId::Worker(fresh_id()),
            status: "running".to_string(),
        },
    );

    assert_eq!(buffer.len(), 2);
}

#[test]
fn memory_receiver_closed_disables_stream_without_stopping_loop() {
    let mut lagged_since_last_warning = 0;
    let mut last_lag_warning = None;

    let (outcome, _warning) = handle_cortex_receiver_result(
        Err(RecvError::Closed),
        ReceiverClosedBehavior::DisableStream,
        &mut lagged_since_last_warning,
        &mut last_lag_warning,
        30,
        0,
    );

    assert!(matches!(outcome, CortexReceiverOutcome::DisableStream));
}

#[test]
fn memory_receiver_lagged_continues_loop_and_tracks_drop_count() {
    let mut lagged_since_last_warning = 0;
    let mut last_lag_warning = Some(5);

    let (outcome, _warning) = handle_cortex_receiver_result(
        Err(RecvError::Lagged(7)),
        ReceiverClosedBehavior::DisableStream,
        &mut lagged_since_last_warning,
        &mut last_lag_warning,
        30,
        5,
    );

    assert!(matches!(outcome, CortexReceiverOutcome::Lagged { dropped: 7 }));
    assert_eq!(lagged_since_last_warning, 7);
}

#[test]
fn warnings_of_lag_are_spaced_out() {
    let mut lagged = 0;
    let mut last = None;
    assert_eq!(drain_lag_warning_count(&mut lagged, &mut last, 3, 30, 100), Some(3));
    assert_eq!(drain_lag_warning_count(&mut lagged, &mut last, 4, 30, 129), None);
    assert_eq!(drain_lag_warning_count(&mut lagged, &mut last, 5, 30, 130), Some(9));
    assert_eq!(lagged, 0);
    lagged = u64::MAX;
    assert_eq!(drain_lag_warning_count(&mut lagged, &mut last, 1, 30, 131), None);
    assert_eq!(lagged, u64::MAX);
}

#[test]
fn summaries_keep_whole_characters() {
    assert_eq!(summarize_first_non_empty_line("  \n  hé llo  \nx", 2), "hé");
    assert_eq!(summarize_first_non_empty_line(" \r\n\t", 10), "");
    assert_eq!(summarize_first_non_empty_line("abc", 0), "");
}

#[test]
fn ages_of_bulletins_are_counted_in_seconds() {
    assert_eq!(bulletin_age_secs_at(None, 10_000), None);
    assert_eq!(bulletin_age_secs_at(Some(1_000), 10_999), Some(9));
    assert_eq!(bulletin_age_secs_at(Some(20_000), 10_000), Some(0));
    assert!(bulletin_age_secs(Some(0)).unwrap() > 1_700_000_000);
    assert_eq!(bulletin_age_secs(None), None);
}

#[test]
fn bulletins_are_due_from_an_age_on() {
    let status = WarmupStatus { last_refresh_unix_ms: Some(0), ..Default::default() };
    assert!(!should_generate_bulletin_at(warmup_config(), &status, 899_999));
    assert!(should_generate_bulletin_at(warmup_config(), &status, 900_000));
    assert!(should_generate_bulletin_at(warmup_config(), &status, 900_001));
    assert!(should_generate_bulletin_at(warmup_config(), &WarmupStatus::default(), 0));

    assert_eq!(
        bulletin_refresh_outcome(warmup_config(), &status, 900_000, true),
        BulletinRefreshOutcome::Generated
    );
    let failed = bulletin_refresh_outcome(warmup_config(), &status, 900_000, false);
    assert_eq!(failed, BulletinRefreshOutcome::Failed);
    assert!(!failed.is_success());
    assert!(BulletinRefreshOutcome::SkippedFresh.is_success());
    assert!(!BulletinRefreshOutcome::SkippedFresh.generated());
}

#[test]
fn passes_end_warm_or_degraded() {
    let mut status = WarmupStatus::default();
    let mut guard =
        begin_warmup(&mut status, warmup_config(), "startup".to_string(), false, 0).unwrap();
    assert_eq!(status.state, WarmupState::Warming);
    let log = finish_warmup(&mut status, &mut guard, Some(Ok(())), true, 5_000);
    assert_eq!(status.state, WarmupState::Warm);
    assert!(status.embedding_ready);
    assert_eq!(status.last_refresh_unix_ms, Some(5_000));
    assert_eq!(log.event_type, "warmup_succeeded");
    assert_eq!(
        log.details,
        vec![
            ("reason".to_string(), Detail::Text("startup".to_string())),
            ("embedding_ready".to_string(), Detail::Flag(true)),
            ("forced".to_string(), Detail::Flag(false)),
        ]
    );
    assert!(!guard.release(&mut status, 6_000));
    assert_eq!(status.state, WarmupState::Warm);

    let mut guard = begin_warmup(&mut status, warmup_config(), "x".to_string(), true, 0).unwrap();
    let log = finish_warmup(&mut status, &mut guard, Some(Err("gone".to_string())), false, 9_000);
    assert_eq!(status.state, WarmupState::Degraded);
    assert!(status.embedding_ready);
    assert_eq!(
        status.last_error.as_deref(),
        Some("embedding warmup failed: gone; bulletin generation failed")
    );
    assert_eq!(status.bulletin_age_secs, Some(4));
    assert_eq!(log.event_type, "warmup_failed");
}

#[test]
fn abandoned_passes_are_demoted() {
    let mut status = WarmupStatus::default();
    let guard = begin_warmup(&mut status, warmup_config(), "api".to_string(), true, 0).unwrap();
    assert!(guard.release(&mut status, 0));
    assert_eq!(status.state, WarmupState::Degraded);
    assert_eq!(
        status.last_error.as_deref(),
        Some("warmup cancelled before completion (reason: api, forced: true)")
    );
    assert!(!apply_cancelled_warmup_status_at(&mut status, "api", true, 0));

    let disabled = WarmupConfig { enabled: false, ..warmup_config() };
    assert!(begin_warmup(&mut status, disabled, "api".to_string(), false, 0).is_none());
    assert_eq!(status.state, WarmupState::Cold);
    status.state = WarmupState::Warm;
    cool_down(&mut status, 0);
    assert_eq!(status.state, WarmupState::Cold);
    assert_eq!(forced_warmup_reason("worker"), "dispatch_worker");
}

#[test]
fn the_warmup_loop_runs_one_first_pass() {
    let mut status = WarmupStatus::default();
    let mut warmup = WarmupLoop::start(&status);
    assert_eq!(warmup.next_wait(warmup_config(), &mut status, 0), WarmupWait::Pass(5));
    assert_eq!(warmup.after_wait(&status), Some("startup"));
    assert_eq!(warmup.next_wait(warmup_config(), &mut status, 0), WarmupWait::Pass(900));
    assert_eq!(warmup.after_wait(&status), Some("scheduled"));

    let disabled = WarmupConfig { enabled: false, ..warmup_config() };
    assert_eq!(warmup.next_wait(disabled, &mut status, 0), WarmupWait::Idle(10));
    assert_eq!(warmup.next_wait(warmup_config(), &mut status, 0), WarmupWait::Pass(5));
    status.state = WarmupState::Warm;
    status.last_refresh_unix_ms = Some(1);
    assert_eq!(warmup.after_wait(&status), None);
}

#[test]
fn the_signal_buffer_keeps_the_newest() {
    let mut cortex = Cortex::new("prompt".to_string());
    for number in 0..150 {
        cortex.observe(ProcessEvent::TaskUpdated {
            agent_id: "agent".to_string(),
            task_number: number,
            status: "ready".to_string(),
            action: "created".to_string(),
        });
    }
    assert_eq!(cortex.signal_buffer.len(), SIGNAL_BUFFER_CAPACITY);
    assert!(matches!(
        cortex.signal_buffer.front(),
        Some(Signal::TaskUpdated { task_number: 50, .. })
    ));
    cortex.observe(ProcessEvent::TaskUpdated {
        agent_id: "agent".to_string(),
        task_number: 149,
        status: "done".to_string(),
        action: "updated".to_string(),
    });
    assert_eq!(cortex.signal_buffer.len(), SIGNAL_BUFFER_CAPACITY);
    assert!(matches!(
        cortex.signal_buffer.back(),
        Some(Signal::TaskUpdated { task_number: 149, status, action })
            if status == "done" && action == "updated"
    ));
}

#[test]
fn the_cortex_loop_goes_on_without_memories_only() {
    let config = CortexConfig { tick_interval_secs: 0, bulletin_interval_secs: 60 };
    let mut cortex = CortexLoop::start(config, 1_000);
    assert_eq!(cortex.tick_interval_secs, 1);
    assert!(matches!(cortex.on_memory(Err(RecvError::Closed), 1_000), LoopStep::CloseStream));
    assert!(!cortex.memory_event_stream_open);
    assert!(matches!(
        cortex.on_control(Err(RecvError::Lagged(2)), 1_000),
        LoopStep::Missed { dropped: 2, warning: Some(2) }
    ));
    assert!(matches!(
        cortex.on_control(Err(RecvError::Lagged(3)), 30_999),
        LoopStep::Missed { dropped: 3, warning: None }
    ));
    assert!(matches!(
        cortex.on_control(Err(RecvError::Lagged(4)), 31_000),
        LoopStep::Missed { dropped: 4, warning: Some(7) }
    ));

    assert_eq!(
        cortex.on_tick(None, config, 60_999),
        TickPlan { spawn_refresh: false, reset_timer: None }
    );
    assert_eq!(
        cortex.on_tick(None, CortexConfig { tick_interval_secs: 5, ..config }, 61_000),
        TickPlan { spawn_refresh: true, reset_timer: Some(5) }
    );
    assert!(matches!(
        cortex.on_control(Err(RecvError::Closed), 61_000),
        LoopStep::Stop { abort_refresh: true }
    ));
}

#[test]
fn only_written_bulletins_reset_the_clock() {
    let config = CortexConfig { tick_interval_secs: 1, bulletin_interval_secs: 60 };
    let mut cortex = CortexLoop::start(config, 0);
    assert!(cortex.on_tick(None, config, 60_000).spawn_refresh);
    assert!(!cortex.on_tick(None, config, 120_000).spawn_refresh);
    let generated = RefreshEnd::Outcome(BulletinRefreshOutcome::Generated);
    assert!(!cortex.on_tick(Some(generated), config, 130_000).spawn_refresh);
    assert_eq!(cortex.last_bulletin_refresh, 130_000);
    assert!(cortex.on_tick(None, config, 190_000).spawn_refresh);
    assert!(cortex.on_tick(Some(RefreshEnd::Broken), config, 190_001).spawn_refresh);
}

#[test]
fn startup_bulletins_are_retried() {
    assert!(matches!(
        startup_step(0, BulletinRefreshOutcome::SkippedFresh),
        StartupStep::Done
    ));
    match startup_step(1, BulletinRefreshOutcome::Failed) {
        StartupStep::Retry { log, delay_secs } => {
            assert_eq!(delay_secs, 15);
            assert_eq!(log.event_type, "bulletin_failed");
            assert_eq!(
                log.summary,
                "Bulletin generation failed, retrying (attempt 2/3)"
            );
        }
        StartupStep::Done => panic!("expected another attempt"),
    }
    assert!(matches!(startup_step(3, BulletinRefreshOutcome::Failed), StartupStep::Done));
}

#[test]
fn rows_become_records() {
    let row = |details: Option<&str>| CortexEventRow {
        id: "e".to_string(),
        event_type: "t".to_string(),
        summary: "s".to_string(),
        details: details.map(|text| text.to_string()),
        created_at: Timestamp { seconds: 1_700_000_000, nanos: 0 },
    };
    let event = row(Some("{\"a\": 1}")).into_event();
    assert_eq!(event.created_at, "2023-11-14T22:13:20+00:00");
    assert_eq!(event.details.as_deref(), Some("{\"a\": 1}"));
    assert_eq!(row(Some("{broken")).into_event().details, None);
    assert_eq!(row(None).into_event().details, None);

    let profile = AgentProfileRow {
        agent_id: "main".to_string(),
        display_name: Some("Ada".to_string()),
        status: None,
        bio: None,
        avatar_seed: None,
        generated_at: Timestamp { seconds: 0, nanos: 0 },
        updated_at: Timestamp { seconds: 0, nanos: 500_000_000 },
    }
    .into_profile();
    assert_eq!(profile.generated_at, "1970-01-01T00:00:00+00:00");
    assert_eq!(profile.updated_at, "1970-01-01T00:00:00.500+00:00");
}

#[test]
fn sections_are_searched_in_order() {
    let labels: Vec<&str> =
        (0..BULLETIN_SECTION_COUNT).map(|index| bulletin_section(index).label).collect();
    assert_eq!(
        labels,
        vec![
            "Identity & Core Facts",
            "Recent Memories",
            "Decisions",
            "High-Importance Context",
            "Preferences & Patterns",
            "Active Goals",
            "Recent Events",
            "Observations",
        ]
    );
    let last = bulletin_section(7);
    assert_eq!(last.mode, SearchMode::Typed);
    assert_eq!(last.memory_type, Some(MemoryType::Observation));
    assert_eq!(last.sort_by, SearchSort::Recent);
    assert_eq!(last.max_results, 5);
}

fn task() -> Task {
    Task {
        task_number: 4,
        title: "Ship".to_string(),
        description: None,
        status: "ready".to_string(),
        priority: "high".to_string(),
        subtasks: vec![
            Subtask { title: "build".to_string(), completed: true },
            Subtask { title: "send".to_string(), completed: false },
        ],
        metadata: Vec::new(),
    }
}

#[test]
fn bulletins_are_written_from_what_was_found() {
    let mut found: Vec<Option<Vec<FoundMemory>>> = (0..8).map(|_| Some(Vec::new())).collect();
    found[2] = Some(vec![FoundMemory {
        memory_type: "decision".to_string(),
        importance: "0.9".to_string(),
        content: "use rust\nfor all".to_string(),
    }]);
    found[5] = None;
    let tasks = gather_active_tasks(&vec![task()]);
    assert_eq!(tasks, "### Active Tasks\n\n- #4 [ready] (high) Ship [1/2]\n\n");
    assert_eq!(gather_active_tasks(&Vec::new()), "");
    let raw = gather_bulletin_sections(&found, Some(&tasks)).unwrap();
    assert_eq!(
        raw,
        "### Decisions\n\n- [decision] (importance: 0.9) use rust\n\n### Active Tasks\n\n- #4 [ready] (high) Ship [1/2]\n\n"
    );
    assert_eq!(count_sections(&raw), 2);
    assert_eq!(count_words(" a  b\nc "), 3);
    assert_eq!(first_line_of("a\r\nb"), "a");
    assert_eq!(first_line_of(""), "");
    assert_eq!(
        active_task_statuses(),
        vec![
            TaskStatus::InProgress,
            TaskStatus::Ready,
            TaskStatus::Backlog,
            TaskStatus::PendingApproval,
        ]
    );
}

#[test]
fn material_is_missing_where_every_search_failed() {
    let mut found: Vec<Option<Vec<FoundMemory>>> = (0..8).map(|_| None).collect();
    assert_eq!(gather_bulletin_sections(&found, None), None);
    assert_eq!(gather_bulletin_sections(&found, Some("")).as_deref(), Some(""));
    found[0] = Some(Vec::new());
    assert_eq!(gather_bulletin_sections(&found, None).as_deref(), Some(""));
}

#[test]
fn bulletins_are_kept_where_nothing_could_be_asked() {
    let mut board = BulletinBoard {
        memory_bulletin: "old".to_string(),
        warmup_status: WarmupStatus::default(),
    };
    // Without material, and without a prompt.
    for (raw_sections, synthesis) in
        [(None, Some(Ok("new".to_string()))), (None, None), (Some("### X\n"), None)]
    {
        let (written, log) = board.generate_bulletin(raw_sections, synthesis, 12, "m", 1_000);
        assert!(!written);
        assert!(log.is_none());
        assert_eq!(board.memory_bulletin, "old");
        assert_eq!(board.warmup_status.state, WarmupStatus::default().state);
    }
}

#[test]
fn bulletins_are_kept_where_the_model_fails() {
    let mut board = BulletinBoard {
        memory_bulletin: "old".to_string(),
        warmup_status: WarmupStatus::default(),
    };
    let (written, log) =
        board.generate_bulletin(Some("### X\n"), Some(Err("down".to_string())), 12, "m", 1_000);
    assert!(!written);
    assert_eq!(board.memory_bulletin, "old");
    assert_eq!(board.warmup_status.state, WarmupState::Degraded);
    assert_eq!(
        board.warmup_status.last_error.as_deref(),
        Some("bulletin generation failed: down")
    );
    assert_eq!(log.unwrap().summary, "Bulletin synthesis failed after 12ms: down");

    let (written, log) =
        board.generate_bulletin(
            Some("### X\n"),
            Some(Ok("new and good".to_string())),
            12,
            "m",
            1_000,
        );
    assert!(written);
    assert_eq!(board.memory_bulletin, "new and good");
    assert_eq!(board.warmup_status.state, WarmupState::Warm);
    assert_eq!(log.unwrap().summary, "Bulletin generated: 3 words, 1 sections, 12ms");

    board.warmup_status.state = WarmupState::Warming;
    board.generate_bulletin(Some("### X\n"), Some(Ok("again".to_string())), 12, "m", 2_000);
    assert_eq!(board.warmup_status.state, WarmupState::Warming);

    let (written, log) = board.generate_bulletin(Some(""), None, 12, "m", 3_000);
    assert!(written);
    assert_eq!(board.memory_bulletin, "");
    assert_eq!(log.unwrap().summary, "Bulletin skipped: no memories in graph");
}

#[test]
fn profiles_are_recorded() {
    let log = profile_generated(&Some("Ada".to_string()), &None, 7, "m");
    assert_eq!(log.summary, "Profile generated: Ada — \"no status\" (7ms)");
    assert_eq!(log.details[1], ("status".to_string(), Detail::Null));
    let log = profile_failed("down", 7, "m");
    assert_eq!(log.event_type, "profile_failed");
    assert_eq!(log.summary, "Profile generation failed after 7ms: down");
    assert_eq!(empty_to_none(String::new()), None);
    assert_eq!(empty_to_none("x".to_string()), Some("x".to_string()));
}

#[test]
fn association_passes_are_bounded() {
    let mut pass = AssociationPass::new(9, 2, true);
    assert!(pass.summarize(fraction(0.5), fraction(0.9)).is_none());
    pass.record(true);
    pass.record(false);
    assert!(!pass.is_exhausted());
    pass.record(true);
    assert!(pass.is_exhausted());
    let log = pass.summarize(fraction(0.5), fraction(0.9)).unwrap();
    assert_eq!(log.summary, "Backfill: created 2 associations from 9 memories");
    let pass = AssociationPass { is_backfill: false, ..pass };
    let log = pass.summarize(fraction(0.5), fraction(0.9)).unwrap();
    assert_eq!(log.summary, "Created 2 associations from 9 new memories");
}
