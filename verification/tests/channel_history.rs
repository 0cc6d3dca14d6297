use spacebot::agent::channel_history::{
    apply_history_after_turn, extract_message_id, extract_reply_from_tool_syntax,
    format_batched_user_message, format_user_message, message_display_name,
    pop_retrigger_bridge_message, resolve_reply_payload,
};
use spacebot::agent::message::{
    AssistantContent, Message, PromptError, ToolCall, UserContent,
};
use spacebot::clock::Timestamp;
use spacebot::events::{event_is_for_channel, ProcessEvent, ProcessId};
use spacebot::json::JsonValue;
use spacebot::messages::{InboundMessage, MessageContent};

fn user_msg(text: &str) -> Message {
    Message::User { content: vec![UserContent::Text(text.to_string())] }
}

fn assistant_msg(text: &str) -> Message {
    Message::Assistant { id: None, content: vec![AssistantContent::Text(text.to_string())] }
}

fn reply_call(text: &str) -> Message {
    Message::Assistant {
        id: None,
        content: vec![AssistantContent::ToolCall(ToolCall {
            id: "call_1".to_string(),
            name: "reply".to_string(),
            arguments: vec![("content".to_string(), JsonValue::Text(text.to_string()))],
        })],
    }
}

fn cancelled(reason: &str) -> Result<String, PromptError> {
    Err(PromptError::PromptCancelled { reason: reason.to_string() })
}

fn make_history(msgs: &[&str]) -> Vec<Message> {
    msgs.iter()
        .enumerate()
        .map(|(i, text)| if i % 2 == 0 { user_msg(text) } else { assistant_msg(text) })
        .collect()
}

#[test]
fn ok_writes_history_back() {
    let mut guard = make_history(&["hello"]);
    let history = make_history(&["hello", "hi there", "how are you?"]);
    let len_before = 1;

    apply_history_after_turn(
        &Ok("hi there".to_string()),
        &mut guard,
        history.clone(),
        len_before,
        "test",
        false,
    );

    assert_eq!(guard, history);
}

#[test]
fn max_turns_writes_history_back() {
    let mut guard = make_history(&["hello"]);
    let history = make_history(&["hello", "hi there", "how are you?"]);
    let len_before = 1;

    let err = Err(PromptError::MaxTurnsError);

    apply_history_after_turn(&err, &mut guard, history.clone(), len_before, "test", false);

    assert_eq!(guard, history);
}

#[test]
fn prompt_cancelled_preserves_user_and_reply() {
    let initial = make_history(&["hello", "thinking..."]);
    let mut guard = initial.clone();
    let mut history = initial.clone();
    history.push(user_msg("new user prompt"));
    history.push(reply_call("Hey there!"));
    let len_before = initial.len();

    let err = cancelled("reply delivered");

    apply_history_after_turn(&err, &mut guard, history, len_before, "test", false);

    let mut expected = initial;
    expected.push(user_msg("new user prompt"));
    expected.push(assistant_msg("Hey there!"));
    assert_eq!(guard, expected, "user text message and reply content should be preserved");
}

#[test]
fn prompt_cancelled_extracts_reply_discards_tool_results() {
    let initial = make_history(&["hello", "thinking..."]);
    let mut guard = initial.clone();
    let mut history = initial.clone();
    history.push(user_msg("new user prompt"));
    history.push(reply_call("hello"));
    history.push(Message::User {
        content: vec![UserContent::ToolResult {
            id: "call_1".to_string(),
            content: "ok".to_string(),
        }],
    });
    let len_before = initial.len();

    let err = cancelled("reply delivered");

    apply_history_after_turn(&err, &mut guard, history, len_before, "test", false);

    let mut expected = initial;
    expected.push(user_msg("new user prompt"));
    expected.push(assistant_msg("hello"));
    assert_eq!(
        guard, expected,
        "reply content should be extracted, tool-result messages discarded"
    );
}

#[test]
fn prompt_cancelled_preserves_only_first_user_prompt() {
    let initial = make_history(&["hello", "thinking..."]);
    let mut guard = initial.clone();
    let mut history = initial.clone();
    history.push(user_msg("real user prompt"));
    history.push(assistant_msg("bad tool syntax"));
    history.push(user_msg("Please proceed and use the available tools."));
    history.push(reply_call("Got it!"));
    let len_before = initial.len();

    let err = cancelled("reply delivered");

    apply_history_after_turn(&err, &mut guard, history, len_before, "test", false);

    let mut expected = initial;
    expected.push(user_msg("real user prompt"));
    expected.push(assistant_msg("Got it!"));
    assert_eq!(guard, expected, "only the first user prompt and final reply should be preserved");
}

#[test]
fn prompt_cancelled_retrigger_preserves_reply_only() {
    let initial = make_history(&["hello", "thinking..."]);
    let mut guard = initial.clone();
    guard.push(assistant_msg("[acknowledged — working on it in background]"));

    let mut history = guard.clone();
    history.push(user_msg("[System: 1 background process completed...]"));
    history.push(reply_call("Relayed branch result to user."));
    let len_before = guard.len();

    let err = cancelled("reply delivered");

    let preserved = apply_history_after_turn(&err, &mut guard, history, len_before, "test", true);

    let mut expected = initial;
    expected.push(assistant_msg("Relayed branch result to user."));
    assert!(preserved, "retrigger PromptCancelled should report reply preservation");
    assert_eq!(guard, expected, "retrigger history should keep only the extracted relay text");
}

#[test]
fn prompt_cancelled_retrigger_without_reply_discards_scaffolding() {
    let initial = make_history(&["hello", "thinking..."]);
    let mut guard = initial.clone();
    guard.push(assistant_msg("[acknowledged — working on it in background]"));

    let mut history = guard.clone();
    history.push(user_msg("[System: 1 background process completed...]"));
    history.push(assistant_msg("relay attempt without tool call"));
    let len_before = guard.len();

    let err = cancelled("reply delivered");

    let preserved = apply_history_after_turn(&err, &mut guard, history, len_before, "test", true);

    assert!(!preserved, "retrigger PromptCancelled should report no reply preservation");
    assert_eq!(
        guard, initial,
        "retrigger scaffolding should be removed when no reply payload exists"
    );
}

#[test]
fn completion_error_rolls_back() {
    let initial = make_history(&["hello", "thinking..."]);
    let mut guard = initial.clone();
    let mut history = initial.clone();
    history.push(user_msg("[dangling tool-call]"));
    let len_before = initial.len();

    let err = Err(PromptError::CompletionError("API error".to_string()));

    apply_history_after_turn(&err, &mut guard, history, len_before, "test", false);

    assert_eq!(guard, initial, "history should be rolled back after hard error");
}

#[test]
fn tool_error_rolls_back() {
    let initial = make_history(&["hello", "thinking..."]);
    let mut guard = initial.clone();
    let mut history = initial.clone();
    history.push(user_msg("[dangling tool-call]"));
    let len_before = initial.len();

    let err = Err(PromptError::ToolError("nonexistent_tool".to_string()));

    apply_history_after_turn(&err, &mut guard, history, len_before, "test", false);

    assert_eq!(guard, initial, "history should be rolled back after tool error");
}

#[test]
fn rollback_on_empty_history_is_noop() {
    let mut guard: Vec<Message> = vec![];
    let history: Vec<Message> = vec![];
    let len_before = 0;

    let err = cancelled("reply delivered");

    apply_history_after_turn(&err, &mut guard, history, len_before, "test", false);

    assert!(guard.is_empty(), "empty history should stay empty after rollback");
}

#[test]
fn rollback_when_nothing_appended_is_noop() {
    let initial = make_history(&["hello", "thinking..."]);
    let mut guard = initial.clone();
    let history = initial.clone();
    let len_before = initial.len();

    let err = cancelled("skip delivered");

    apply_history_after_turn(&err, &mut guard, history, len_before, "test", false);

    assert_eq!(guard, initial, "history should be unchanged when nothing was appended");
}

#[test]
fn next_turn_is_clean_after_prompt_cancelled() {
    let initial = make_history(&["hello", "thinking..."]);
    let mut guard = initial.clone();
    let mut poisoned_history = initial.clone();
    poisoned_history.push(user_msg("what's up"));
    poisoned_history.push(reply_call("hey!"));
    let len_before = initial.len();

    apply_history_after_turn(
        &cancelled("reply delivered"),
        &mut guard,
        poisoned_history,
        len_before,
        "test",
        false,
    );

    assert_eq!(
        guard.len(),
        initial.len() + 2,
        "user prompt and assistant reply should be preserved"
    );
    assert!(
        matches!(&guard[guard.len() - 2], Message::User { .. }),
        "second-to-last message should be the preserved user prompt"
    );
    assert!(
        matches!(&guard[guard.len() - 1], Message::Assistant { .. }),
        "last message should be the extracted reply content"
    );

    guard.push(user_msg("follow-up question"));
    let len_before2 = guard.len();
    let mut history2 = guard.clone();
    history2.push(assistant_msg("clean response"));

    apply_history_after_turn(
        &Ok("clean response".to_string()),
        &mut guard,
        history2.clone(),
        len_before2,
        "test",
        false,
    );

    assert_eq!(guard, history2, "second turn should succeed with clean history");
    let has_dangling = guard.iter().any(|m| {
        if let Message::Assistant { content, .. } = m {
            content.iter().any(|c| matches!(c, AssistantContent::ToolCall(_)))
        } else {
            false
        }
    });
    assert!(!has_dangling, "no dangling tool-call messages in history after rollback");
}

fn message_from(source: &str) -> InboundMessage {
    InboundMessage {
        id: "test".to_string(),
        agent_id: Some("test_agent".to_string()),
        sender_id: "user123".to_string(),
        conversation_id: "conv".to_string(),
        content: MessageContent::Text("".to_string()),
        source: source.to_string(),
        adapter: Some("discord".to_string()),
        metadata: Vec::new(),
        formatted_author: Some("TestUser".to_string()),
        timestamp: Timestamp { seconds: 1_772_107_200, nanos: 0 },
    }
}

#[test]
fn format_user_message_handles_empty_text() {
    let message = message_from("discord");

    let formatted = format_user_message("", &message, "2026-02-26 12:00:00 UTC");
    assert!(!formatted.trim().is_empty(), "formatted message should not be empty");
    assert!(
        formatted.contains("[attachment or empty message]"),
        "should use placeholder for empty text"
    );

    let formatted_ws = format_user_message("   ", &message, "2026-02-26 12:00:00 UTC");
    assert!(
        formatted_ws.contains("[attachment or empty message]"),
        "should use placeholder for whitespace-only text"
    );

    let system_message = InboundMessage {
        sender_id: "system".to_string(),
        adapter: None,
        formatted_author: None,
        ..message_from("system")
    };

    let formatted_sys = format_user_message("", &system_message, "2026-02-26 12:00:00 UTC");
    assert_eq!(
        formatted_sys, "[system event]",
        "system messages should use [system event] placeholder"
    );

    let formatted_normal = format_user_message("hello", &message, "2026-02-26 12:00:00 UTC");
    assert!(formatted_normal.contains("hello"), "normal messages should preserve text");
    assert!(
        formatted_normal.contains("[2026-02-26 12:00:00 UTC]"),
        "normal messages should include absolute timestamp context"
    );
    assert!(
        !formatted_normal.contains("[attachment or empty message]"),
        "normal messages should not use placeholder"
    );
}

#[test]
fn message_display_name_uses_consistent_fallback_order() {
    let name = vec![(
        "sender_display_name".to_string(),
        JsonValue::Text("Metadata User".to_string()),
    )];
    let metadata_message = InboundMessage {
        id: "metadata".to_string(),
        sender_id: "sender123".to_string(),
        content: MessageContent::Text("hello".to_string()),
        metadata: name.clone(),
        formatted_author: None,
        ..message_from("discord")
    };
    assert_eq!(message_display_name(&metadata_message), "Metadata User");

    let formatted_author_message = InboundMessage {
        id: "formatted".to_string(),
        sender_id: "sender123".to_string(),
        content: MessageContent::Text("hello".to_string()),
        metadata: name,
        formatted_author: Some("Formatted Author".to_string()),
        ..message_from("discord")
    };
    assert_eq!(message_display_name(&formatted_author_message), "Formatted Author");

    let sender_fallback_message = InboundMessage {
        id: "fallback".to_string(),
        sender_id: "sender123".to_string(),
        content: MessageContent::Text("hello".to_string()),
        metadata: Vec::new(),
        formatted_author: None,
        ..message_from("discord")
    };
    assert_eq!(message_display_name(&sender_fallback_message), "sender123");
}

#[test]
fn format_batched_message_includes_absolute_and_relative_time() {
    let formatted = format_batched_user_message(
        "alice",
        "2026-02-26 15:04:05 PST (America/Los_Angeles, UTC-08:00)",
        "12s ago",
        "ship it",
    );
    assert!(
        formatted.contains("2026-02-26 15:04:05 PST"),
        "batched formatting should include absolute timestamp"
    );
    assert!(
        formatted.contains("12s ago"),
        "batched formatting should include relative timestamp hint"
    );
    assert!(
        formatted.contains("ship it"),
        "batched formatting should include original message text"
    );
}

#[test]
fn format_batched_message_uses_placeholder_for_empty_text() {
    let formatted = format_batched_user_message(
        "alice",
        "2026-02-26 15:04:05 PST (America/Los_Angeles, UTC-08:00)",
        "just now",
        "   ",
    );
    assert!(
        formatted.contains("[attachment or empty message]"),
        "batched formatting should use placeholder for empty/whitespace text"
    );
}

#[test]
fn event_filter_scopes_tool_events_by_channel() {
    let channel_id = "channel-a".to_string();
    let other_channel = "channel-b".to_string();
    let process_id = ProcessId::Worker(uuid::Uuid::new_v4().as_u128());

    let related_event = ProcessEvent::ToolStarted {
        agent_id: "agent".to_string(),
        process_id: process_id.clone(),
        channel_id: Some(channel_id.clone()),
        tool_name: "memory_save".to_string(),
        args: "{}".to_string(),
    };
    let unrelated_event = ProcessEvent::ToolStarted {
        agent_id: "agent".to_string(),
        process_id,
        channel_id: Some(other_channel),
        tool_name: "memory_save".to_string(),
        args: "{}".to_string(),
    };

    assert!(event_is_for_channel(&related_event, &channel_id));
    assert!(!event_is_for_channel(&unrelated_event, &channel_id));
}

#[test]
fn event_filter_scopes_agent_message_events_by_channel() {
    let channel_id = "channel-a".to_string();
    let related_event = ProcessEvent::AgentMessageReceived {
        from_agent_id: "agent-a".to_string(),
        to_agent_id: "agent-b".to_string(),
        link_id: "link-1".to_string(),
        channel_id: channel_id.clone(),
    };
    let unrelated_event = ProcessEvent::AgentMessageReceived {
        from_agent_id: "agent-a".to_string(),
        to_agent_id: "agent-b".to_string(),
        link_id: "link-1".to_string(),
        channel_id: "channel-b".to_string(),
    };

    assert!(event_is_for_channel(&related_event, &channel_id));
    assert!(!event_is_for_channel(&unrelated_event, &channel_id));
}

#[test]
fn text_delta_events_are_filtered_by_channel_id() {
    let target_channel = "channel-a".to_string();
    let matching_event = ProcessEvent::TextDelta {
        agent_id: "agent".to_string(),
        process_id: ProcessId::Channel(target_channel.clone()),
        channel_id: Some(target_channel.clone()),
        text_delta: "hel".to_string(),
        aggregated_text: "hel".to_string(),
    };
    let other_event = ProcessEvent::TextDelta {
        agent_id: "agent".to_string(),
        process_id: ProcessId::Channel("channel-b".to_string()),
        channel_id: Some("channel-b".to_string()),
        text_delta: "hel".to_string(),
        aggregated_text: "hello".to_string(),
    };
    let unscoped_event = ProcessEvent::TextDelta {
        agent_id: "agent".to_string(),
        process_id: ProcessId::Channel("channel-a".to_string()),
        channel_id: None,
        text_delta: "hel".to_string(),
        aggregated_text: "hello".to_string(),
    };

    assert!(event_is_for_channel(&matching_event, &target_channel));
    assert!(!event_is_for_channel(&other_event, &target_channel));
    assert!(!event_is_for_channel(&unscoped_event, &target_channel));
}

#[test]
fn status_and_task_events_are_for_no_channel() {
    let status = ProcessEvent::StatusUpdate {
        agent_id: "agent".to_string(),
        process_id: ProcessId::Channel("channel-a".to_string()),
        status: "busy".to_string(),
    };
    let task = ProcessEvent::TaskUpdated {
        agent_id: "agent".to_string(),
        task_number: 1,
        status: "ready".to_string(),
        action: "created".to_string(),
    };
    assert!(!event_is_for_channel(&status, "channel-a"));
    assert!(!event_is_for_channel(&task, "channel-a"));
}

#[test]
fn user_messages_name_sender_bot_and_reply() {
    let message = InboundMessage {
        metadata: vec![
            ("sender_is_bot".to_string(), JsonValue::Bool(true)),
            ("reply_to_author".to_string(), JsonValue::Text("Bea".to_string())),
            ("reply_to_text".to_string(), JsonValue::Text("the plan".to_string())),
        ],
        ..message_from("discord")
    };
    assert_eq!(
        format_user_message("yes", &message, "noon"),
        "TestUser (bot) (replying to Bea: \"the plan\") [noon]: yes"
    );
    assert_eq!(
        format_batched_user_message("alice", "noon", "12s ago", "ship it"),
        "[alice] (noon; 12s ago): ship it"
    );
}

#[test]
fn bridge_is_popped_from_the_end_only() {
    let mut history = vec![assistant_msg("[acknowledged — working on it in background]")];
    assert!(pop_retrigger_bridge_message(&mut history));
    assert!(history.is_empty());
    assert!(!pop_retrigger_bridge_message(&mut history));

    let mut kept = vec![
        assistant_msg("[acknowledged — working on it in background]"),
        user_msg("go on"),
    ];
    assert!(!pop_retrigger_bridge_message(&mut kept));
    assert_eq!(kept.len(), 2);
}

#[test]
fn tool_syntax_gives_the_reply_it_holds() {
    assert_eq!(
        extract_reply_from_tool_syntax("[reply]\n{\"content\": \"hi\"}"),
        Some("hi".to_string())
    );
    assert_eq!(
        extract_reply_from_tool_syntax("(RePLY) just text"),
        Some("just text".to_string())
    );
    assert_eq!(extract_reply_from_tool_syntax("[reply] {\"other\": 1}"), None);
    assert_eq!(extract_reply_from_tool_syntax("[skip]"), Some(String::new()));
    assert_eq!(extract_reply_from_tool_syntax("hello"), None);
    assert_eq!(
        resolve_reply_payload("{broken", Some("found".to_string())),
        Some("found".to_string())
    );
    assert_eq!(resolve_reply_payload("{broken", None), None);
    assert_eq!(resolve_reply_payload("", None), None);
}

#[test]
fn message_ids_are_texts_or_numbers() {
    let with = |value: JsonValue| InboundMessage {
        metadata: vec![("message_id".to_string(), value)],
        ..message_from("discord")
    };
    assert_eq!(
        extract_message_id(&with(JsonValue::Text("abc".to_string()))),
        Some("abc".to_string())
    );
    assert_eq!(
        extract_message_id(&with(JsonValue::Number("42".to_string()))),
        Some("42".to_string())
    );
    assert_eq!(extract_message_id(&with(JsonValue::Bool(true))), None);
    assert_eq!(extract_message_id(&message_from("discord")), None);
}
