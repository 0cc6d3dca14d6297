use spacebot::agent::channel_state::RunLog;
use spacebot::agent::cortex_log::Detail;
use spacebot::agent::task_pickup::{
    build_task_prompt, find_agent_name, finish_task, notify_delegation_completion,
    pickup_interval_secs, pickup_log, quote_result, start_task, task_change, TaskOutcome,
};
use spacebot::agent::tasks::{Subtask, Task, TaskStatus};
use spacebot::clock::Timestamp;
use spacebot::events::ProcessEvent;
use spacebot::json::JsonValue;
use spacebot::messages::MessageContent;

fn task() -> Task {
    Task {
        task_number: 7,
        title: "Ship".to_string(),
        description: Some("to the moon".to_string()),
        status: "ready".to_string(),
        priority: "high".to_string(),
        subtasks: vec![
            Subtask { title: "build".to_string(), completed: true },
            Subtask { title: "launch".to_string(), completed: false },
        ],
        metadata: Vec::new(),
    }
}

#[test]
fn prompts_tell_the_whole_task() {
    assert_eq!(
        build_task_prompt(&task()),
        "Execute task #7: Ship\n\nDescription:\nto the moon\n\nSubtasks:\n1. [x] build\n2. [ ] launch\n"
    );
    let bare = Task { description: None, subtasks: Vec::new(), ..task() };
    assert_eq!(build_task_prompt(&bare), "Execute task #7: Ship");
    assert_eq!(pickup_log(&bare).summary, "Picked up ready task #7");
    assert_eq!(pickup_interval_secs(1), 5);
    assert_eq!(pickup_interval_secs(30), 30);
}

#[test]
fn tasks_start_with_events() {
    let start = start_task(&task(), &"agent".to_string(), 3);
    assert_eq!(start.worker, "00000000-0000-0000-0000-000000000003");
    assert!(matches!(
        start.updated,
        ProcessEvent::TaskUpdated { task_number: 7, ref status, ref action, .. }
            if status == "in_progress" && action == "updated"
    ));
    assert!(matches!(
        start.started,
        ProcessEvent::WorkerStarted { channel_id: None, ref task, ref worker_type, .. }
            if task == "task #7: Ship" && worker_type == "task"
    ));
    assert_eq!(
        start.run_log,
        RunLog::WorkerStarted {
            channel_id: None,
            worker_id: 3,
            task: "task #7: Ship".to_string(),
            worker_type: "task".to_string(),
            agent_id: "agent".to_string(),
        }
    );
}

#[test]
fn tasks_end_done_or_ready_again() {
    assert_eq!(task_change(true).status, TaskStatus::Done);
    assert!(!task_change(true).clear_worker_id);
    assert_eq!(task_change(false).status, TaskStatus::Ready);
    assert!(task_change(false).clear_worker_id);

    let end = finish_task(
        &task(),
        &"agent".to_string(),
        3,
        TaskOutcome::Finished { result: "launched".to_string() },
        true,
    );
    assert!(end.success);
    assert_eq!(end.result, "launched");
    assert!(matches!(
        end.updated,
        Some(ProcessEvent::TaskUpdated { ref status, .. }) if status == "done"
    ));
    assert_eq!(end.log.summary, "Completed picked-up task #7");

    let end = finish_task(
        &task(),
        &"agent".to_string(),
        3,
        TaskOutcome::Failed { message: "scrubbed".to_string(), raw: "raw".to_string() },
        false,
    );
    assert!(!end.success);
    assert_eq!(end.result, "Worker failed: scrubbed");
    assert!(end.updated.is_none());
    assert_eq!(end.log.summary, "Picked-up task #7 failed: raw");
    assert_eq!(end.log.details[2], ("error".to_string(), Detail::Text("raw".to_string())));
    assert!(matches!(
        end.completed,
        ProcessEvent::WorkerComplete { success: false, notify: true, ref result, .. }
            if result == "Worker failed: scrubbed"
    ));
}

fn delegated(channel: Option<&str>) -> Task {
    let mut metadata =
        vec![("delegating_agent_id".to_string(), JsonValue::Text("boss".to_string()))];
    if let Some(channel) = channel {
        metadata.push((
            "originating_channel".to_string(),
            JsonValue::Text(channel.to_string()),
        ));
    }
    Task { metadata, ..task() }
}

const NOW: Timestamp = Timestamp { seconds: 9, nanos: 0 };

#[test]
fn delegating_agents_are_told() {
    let names = vec![("me".to_string(), "Ada".to_string())];
    assert!(notify_delegation_completion(&task(), "x", true, "me", &names, 1, NOW).is_none());

    let notice =
        notify_delegation_completion(&delegated(Some("discord:1")), "up", true, "me", &names, 1, NOW)
            .unwrap();
    assert_eq!(notice.delegating_agent_id, "boss");
    assert_eq!(notice.link_message, "Ada completed task #7: \"Ship\"");
    let injection = notice.injection.unwrap();
    assert_eq!(injection.conversation_id, "discord:1");
    assert_eq!(injection.agent_id, "boss");
    assert_eq!(injection.message.source, "system");
    assert_eq!(injection.message.timestamp, NOW);
    assert!(matches!(
        injection.message.content,
        MessageContent::Text(ref text)
            if text == "[System] Delegated task #7 completed by Ada: \"Ship\"\n\nResult: up"
    ));

    let notice =
        notify_delegation_completion(&delegated(None), "up", false, "other", &names, 1, NOW).unwrap();
    assert_eq!(notice.link_message, "other failed task #7: \"Ship\"");
    assert!(notice.injection.is_none());
    assert_eq!(find_agent_name(&names, "me"), "Ada");
    assert_eq!(find_agent_name(&names, "other"), "other");
}

#[test]
fn long_results_are_quoted_in_part() {
    let fits = "é".repeat(250);
    assert_eq!(quote_result(&fits), fits);
    let long = format!("a{}", "é".repeat(250));
    assert_eq!(quote_result(&long), format!("a{}... [truncated]", "é".repeat(249)));
}
