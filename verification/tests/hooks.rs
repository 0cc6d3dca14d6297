use spacebot::agent::message::{AssistantContent, Message, PromptError, ToolCall, UserContent};
use spacebot::events::{ProcessEvent, ProcessId, ProcessType};
use spacebot::hooks::{
    leak_kind, prune_successful_tool_nudge_prompt, prune_tool_nudge_retry_history, HookAction,
    NudgeRetry, RetryStep, SpacebotHook, ToolCallHookAction, ToolNudgePolicy, TOOL_NUDGE_PROMPT,
    TOOL_NUDGE_REASON,
};
use spacebot::json::JsonValue;

fn fresh_id() -> u128 {
    uuid::Uuid::new_v4().as_u128()
}

fn make_hook() -> SpacebotHook {
    SpacebotHook::new(
        "agent".to_string(),
        ProcessId::Worker(fresh_id()),
        ProcessType::Worker,
        None,
    )
}

fn channel_hook() -> SpacebotHook {
    SpacebotHook::new(
        "agent".to_string(),
        ProcessId::Channel("channel".to_string()),
        ProcessType::Channel,
        Some("channel".to_string()),
    )
}

fn text_response(text: &str) -> Vec<AssistantContent> {
    vec![AssistantContent::Text(text.to_string())]
}

fn tool_call_response() -> Vec<AssistantContent> {
    vec![AssistantContent::ToolCall(ToolCall {
        id: "call_1".to_string(),
        name: "reply".to_string(),
        arguments: vec![("content".to_string(), JsonValue::Text("hello".to_string()))],
    })]
}

fn user(text: &str) -> Message {
    Message::User { content: vec![UserContent::Text(text.to_string())] }
}

fn assistant(text: &str) -> Message {
    Message::Assistant { id: None, content: vec![AssistantContent::Text(text.to_string())] }
}

fn is_nudge(action: &HookAction) -> bool {
    matches!(action, HookAction::Terminate { reason } if reason == TOOL_NUDGE_REASON)
}

#[test]
fn nudges_only_on_first_two_text_only_completion_calls() {
    let mut hook = make_hook().with_tool_nudge_policy(ToolNudgePolicy::Enabled);
    hook.reset_tool_nudge_state();
    hook.set_tool_nudge_request_active(true);

    assert!(matches!(hook.on_completion_call(), HookAction::Continue));
    let first_response = hook.on_completion_response(&text_response("I can help with that."));
    assert!(is_nudge(&first_response));

    assert!(matches!(hook.on_completion_call(), HookAction::Continue));
    let second_response = hook.on_completion_response(&text_response("Still no tools."));
    assert!(is_nudge(&second_response));

    assert!(matches!(hook.on_completion_call(), HookAction::Continue));
    let third_response =
        hook.on_completion_response(&text_response("Third attempt should pass through."));
    assert!(matches!(third_response, HookAction::Continue));
}

#[test]
fn does_not_nudge_when_completion_contains_tool_call() {
    let mut hook = make_hook().with_tool_nudge_policy(ToolNudgePolicy::Enabled);
    hook.reset_tool_nudge_state();
    hook.set_tool_nudge_request_active(true);

    let _ = hook.on_completion_call();

    let response = hook.on_completion_response(&tool_call_response());
    assert!(matches!(response, HookAction::Continue));
}

#[test]
fn does_not_nudge_after_any_tool_call_has_started() {
    let mut hook = make_hook().with_tool_nudge_policy(ToolNudgePolicy::Enabled);
    hook.reset_tool_nudge_state();
    hook.set_tool_nudge_request_active(true);

    let _ = hook.on_completion_call();

    let (tool_call_action, _event) =
        hook.on_tool_call("reply", None, "{\"content\":\"hello\"}".to_string());
    assert!(matches!(tool_call_action, ToolCallHookAction::Continue));

    let response = hook.on_completion_response(&text_response("final answer"));
    assert!(matches!(response, HookAction::Continue));
}

#[test]
fn process_scoped_policy_disables_nudge_for_branch() {
    let mut hook = SpacebotHook::new(
        "agent".to_string(),
        ProcessId::Branch(fresh_id()),
        ProcessType::Branch,
        None,
    );
    hook.reset_tool_nudge_state();
    hook.set_tool_nudge_request_active(true);

    let _ = hook.on_completion_call();
    let response = hook.on_completion_response(&text_response("text-only branch response"));

    assert!(matches!(response, HookAction::Continue));
}

#[test]
fn process_scoped_policy_disables_nudge_for_channel() {
    let mut hook = channel_hook();
    hook.reset_tool_nudge_state();
    hook.set_tool_nudge_request_active(true);

    let _ = hook.on_completion_call();
    let response = hook.on_completion_response(&text_response("text-only channel response"));

    assert!(matches!(response, HookAction::Continue));
}

#[test]
fn explicit_policy_override_disables_nudge() {
    let mut hook = make_hook().with_tool_nudge_policy(ToolNudgePolicy::Disabled);
    hook.reset_tool_nudge_state();
    hook.set_tool_nudge_request_active(true);

    let _ = hook.on_completion_call();
    let response = hook.on_completion_response(&text_response("text-only worker response"));

    assert!(matches!(response, HookAction::Continue));
}

#[test]
fn process_scoped_policy_enables_nudge_for_worker_by_default() {
    let mut hook = make_hook();
    hook.reset_tool_nudge_state();
    hook.set_tool_nudge_request_active(true);

    let _ = hook.on_completion_call();
    let response = hook.on_completion_response(&text_response("text-only worker response"));

    assert!(is_nudge(&response));
}

#[test]
fn tool_nudge_retry_history_hygiene_prevents_stacked_retry_turns() {
    let mut history = vec![user("original task")];
    let base_len = history.len();

    history.push(user(TOOL_NUDGE_PROMPT));
    history.push(assistant("text-only response"));
    prune_tool_nudge_retry_history(&mut history, base_len, true);
    assert_eq!(history.len(), base_len);

    history.push(user(TOOL_NUDGE_PROMPT));
    history.push(assistant("second text-only response"));
    prune_tool_nudge_retry_history(&mut history, base_len, true);
    assert_eq!(history.len(), base_len);
    assert!(matches!(history[0], Message::User { .. }));
}

#[test]
fn first_nudge_retry_prunes_failed_assistant_turn_but_keeps_task_prompt() {
    let mut history = vec![user("prior context")];
    let base_len = history.len();

    history.push(user("current task"));
    history.push(assistant("text-only response"));

    prune_tool_nudge_retry_history(&mut history, base_len, false);

    assert_eq!(history.len(), base_len + 1);
    assert!(matches!(history[base_len], Message::User { .. }));
}

#[test]
fn prompt_with_tool_nudge_retry_prunes_nudge_prompt_on_success() {
    let mut history = vec![user("original task")];
    let base_len = history.len();

    history.push(user(TOOL_NUDGE_PROMPT));
    history.push(assistant("tool execution completed"));

    prune_successful_tool_nudge_prompt(&mut history, base_len, true);

    assert_eq!(history.len(), base_len + 1);
    assert!(matches!(history[base_len], Message::Assistant { .. }));
}

#[test]
fn channel_text_delta_emits_process_event() {
    let hook = channel_hook();

    let (action, event) = hook.on_text_delta("hi", "hi");
    assert!(matches!(action, HookAction::Continue));

    assert!(matches!(
        event,
        Some(ProcessEvent::TextDelta { ref text_delta, ref aggregated_text, .. })
            if text_delta == "hi" && aggregated_text == "hi"
    ));
}

#[test]
fn only_channels_stream_text() {
    let (_action, event) = make_hook().on_text_delta("hi", "hi");
    assert!(event.is_none());
}

#[test]
fn replies_with_secrets_are_skipped() {
    let mut hook = channel_hook();
    let (action, event) = hook.on_tool_call("reply", Some("secret"), "{}".to_string());
    assert!(matches!(
        action,
        ToolCallHookAction::Skip { ref reason }
            if reason == "Reply blocked: content contained a secret."
    ));
    assert!(event.is_none());

    let (action, event) = hook.on_tool_call("shell", Some("secret"), "ls".to_string());
    assert!(matches!(action, ToolCallHookAction::Continue));
    assert!(matches!(
        event,
        Some(ProcessEvent::ToolStarted { ref tool_name, ref args, .. })
            if tool_name == "shell" && args == "ls"
    ));
}

#[test]
fn tool_results_with_secrets_end_public_processes_only() {
    let (action, event) = channel_hook().on_tool_result(
        "shell",
        Some("secret"),
        "raw".to_string(),
        "clean".to_string(),
    );
    assert!(matches!(
        action,
        HookAction::Terminate { ref reason }
            if reason
                == "Tool output contained a secret. Agent terminated to prevent exfiltration."
    ));
    assert!(event.is_none());

    let (action, event) =
        make_hook().on_tool_result("shell", Some("secret"), "raw".to_string(), "clean".to_string());
    assert!(matches!(action, HookAction::Continue));
    assert!(matches!(
        event,
        Some(ProcessEvent::ToolCompleted { ref result, .. }) if result == "clean"
    ));
}

#[test]
fn a_delivered_reply_ends_the_channel_turn() {
    let (action, event) =
        channel_hook().on_tool_result("reply", None, "sent".to_string(), "sent".to_string());
    assert!(matches!(
        action,
        HookAction::Terminate { ref reason } if reason == "reply delivered"
    ));
    assert!(event.is_some());
}

#[test]
fn retries_are_bounded_and_end_with_the_result() {
    let mut hook = make_hook();
    let mut retry = NudgeRetry::start(&mut hook);
    let mut history = vec![user("task")];
    let nudged: Result<String, PromptError> =
        Err(PromptError::PromptCancelled { reason: TOOL_NUDGE_REASON.to_string() });

    assert_eq!(retry.next_prompt("task"), "task");
    assert_eq!(retry.after_attempt(&mut hook, &mut history, 1, &nudged), RetryStep::Again);
    assert_eq!(retry.next_prompt("task"), TOOL_NUDGE_PROMPT);
    assert_eq!(retry.after_attempt(&mut hook, &mut history, 1, &nudged), RetryStep::Again);
    assert_eq!(retry.after_attempt(&mut hook, &mut history, 1, &nudged), RetryStep::Done);
    assert_eq!(retry.attempts, 2);
    assert!(!hook.nudge_request_active);
}

#[test]
fn policies_go_by_process() {
    assert_eq!(ToolNudgePolicy::for_process(ProcessType::Worker), ToolNudgePolicy::Enabled);
    assert_eq!(ToolNudgePolicy::for_process(ProcessType::Cortex), ToolNudgePolicy::Disabled);
    assert!(ToolNudgePolicy::Enabled.is_enabled());
    assert!(!ToolNudgePolicy::Disabled.is_enabled());
    assert!(SpacebotHook::is_tool_nudge_reason(TOOL_NUDGE_REASON));
    assert!(!SpacebotHook::is_tool_nudge_reason("other"));
}

#[test]
fn status_updates_carry_the_process() {
    let hook = channel_hook();
    assert!(matches!(
        hook.send_status("busy".to_string()),
        ProcessEvent::StatusUpdate { ref agent_id, ref process_id, ref status }
            if agent_id == "agent"
                && *process_id == ProcessId::Channel("channel".to_string())
                && status == "busy"
    ));
}

#[test]
fn leaks_are_told_by_their_form() {
    assert_eq!(leak_kind("url-encoded:abc"), "url-encoded");
    assert_eq!(leak_kind("base64-encoded:abc"), "base64-encoded");
    assert_eq!(leak_kind("hex-encoded:abc"), "hex-encoded");
    assert_eq!(leak_kind("abc"), "plaintext");
}
