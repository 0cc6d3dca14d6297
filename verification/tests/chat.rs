use spacebot::agent::cortex_chat::{
    channel_transcript, chat_history, chronological, finish_chat, prompt_timeout_secs,
    try_acquire_send_lock, ChatMessageRow, ChatOutcome, CortexChatEvent, CortexChatHook,
    CortexChatMessage, CortexChatSendError, SendLock, TimelineItem,
};
use spacebot::agent::message::{AssistantContent, Message, UserContent};
use spacebot::clock::Timestamp;
use spacebot::events::{ProcessEvent, ProcessId, ProcessType};
use spacebot::hooks::{HookAction, SpacebotHook, ToolCallHookAction};
use spacebot::text::truncate_utf8_ellipsis;

#[test]
fn preview_utf8_truncates_on_char_boundary() {
    let text = "🙂🙂🙂";
    // For max_bytes=5: can fit "🙂" (4 bytes) but not "🙂..." (7 bytes)
    let preview = truncate_utf8_ellipsis(text, 5);
    assert_eq!(preview, "🙂");
    // For max_bytes=10: can fit "🙂..." (7 bytes)
    let preview = truncate_utf8_ellipsis(text, 10);
    assert_eq!(preview, "🙂...");
}

#[test]
fn preview_utf8_keeps_short_text() {
    let text = "done";
    let preview = truncate_utf8_ellipsis(text, 200);
    assert_eq!(preview, text);
}

#[test]
fn send_lock_returns_busy_when_already_held() {
    let mut send_lock = SendLock::new();
    let _first_guard = try_acquire_send_lock(&mut send_lock).expect("first lock should succeed");
    let second = try_acquire_send_lock(&mut send_lock);
    assert!(matches!(second, Err(CortexChatSendError::Busy)));
}

#[test]
fn send_lock_released_after_timeout_path() {
    let mut send_lock = SendLock::new();
    let send_guard = try_acquire_send_lock(&mut send_lock).expect("first lock should succeed");
    let (text, _event) = finish_chat(ChatOutcome::TimedOut, 1);
    assert!(text.contains("timed out"));
    send_lock.release(send_guard);

    let second = try_acquire_send_lock(&mut send_lock);
    assert!(second.is_ok(), "single-flight lock should be released after timeout path");
}

fn hook(process_type: ProcessType) -> CortexChatHook {
    CortexChatHook::new(SpacebotHook::new(
        "agent".to_string(),
        ProcessId::Worker(1),
        process_type,
        None,
    ))
}

#[test]
fn tool_calls_are_shown() {
    let mut shown = hook(ProcessType::Cortex);
    let (action, event, chat) = shown.on_tool_call("shell", None, "ls".to_string());
    assert!(matches!(action, ToolCallHookAction::Continue));
    assert!(matches!(event, Some(ProcessEvent::ToolStarted { .. })));
    assert!(matches!(chat, Some(CortexChatEvent::ToolStarted { ref tool }) if tool == "shell"));

    let long = "x".repeat(300);
    let (action, event, chat) = shown.on_tool_result("shell", None, &long);
    assert!(matches!(action, HookAction::Continue));
    let preview = format!("{}...", "x".repeat(197));
    assert!(matches!(
        event,
        Some(ProcessEvent::ToolCompleted { ref result, .. }) if *result == preview
    ));
    assert!(matches!(
        chat,
        Some(CortexChatEvent::ToolCompleted { ref result_preview, .. })
            if *result_preview == preview
    ));

    let (action, event, chat) = shown.on_tool_result("shell", Some("secret"), "raw");
    assert!(matches!(action, HookAction::Terminate { .. }));
    assert!(event.is_none());
    assert!(chat.is_none());

    let mut talking = hook(ProcessType::Channel);
    let (action, _, chat) = talking.on_tool_call("reply", Some("secret"), String::new());
    assert!(matches!(action, ToolCallHookAction::Skip { .. }));
    assert!(chat.is_none());
}

fn row(id: &str, seconds: i64) -> ChatMessageRow {
    ChatMessageRow {
        id: id.to_string(),
        thread_id: "t".to_string(),
        role: "user".to_string(),
        content: "hi".to_string(),
        channel_context: None,
        created_at: Timestamp { seconds, nanos: 0 },
    }
}

#[test]
fn rows_are_put_in_order() {
    let messages = chronological(vec![row("new", 60), row("old", 0)]);
    let ids: Vec<&str> = messages.iter().map(|message| message.id.as_str()).collect();
    assert_eq!(ids, vec!["old", "new"]);
    assert_eq!(messages[1].created_at, "1970-01-01T00:01:00+00:00");
}

#[test]
fn the_last_message_is_the_prompt() {
    let message = |role: &str, content: &str| CortexChatMessage {
        id: "m".to_string(),
        thread_id: "t".to_string(),
        role: role.to_string(),
        content: content.to_string(),
        channel_context: None,
        created_at: String::new(),
    };
    let history = chat_history(&vec![
        message("user", "a"),
        message("assistant", "b"),
        message("tool", "c"),
        message("user", "d"),
    ]);
    assert_eq!(
        history,
        vec![
            Message::User { content: vec![UserContent::Text("a".to_string())] },
            Message::Assistant {
                id: None,
                content: vec![AssistantContent::Text("b".to_string())],
            },
        ]
    );
    assert!(chat_history(&Vec::new()).is_empty());
}

#[test]
fn chats_end_with_an_answer_or_an_error() {
    let (text, event) = finish_chat(ChatOutcome::Answered("yes".to_string()), 5);
    assert_eq!(text, "yes");
    assert!(matches!(event, CortexChatEvent::Done { ref full_text } if full_text == "yes"));
    let (text, event) = finish_chat(ChatOutcome::Failed("down".to_string()), 5);
    assert_eq!(text, "Cortex chat error: down");
    assert!(matches!(
        event,
        CortexChatEvent::Error { ref message } if message == "Cortex chat error: down"
    ));
    let (text, _) = finish_chat(ChatOutcome::TimedOut, 5);
    assert_eq!(text, "Cortex chat timed out after 5s while waiting for a model response.");
    assert_eq!(prompt_timeout_secs(0), 1);
    assert_eq!(prompt_timeout_secs(60), 60);
}

#[test]
fn transcripts_leave_out_what_is_unfinished() {
    let transcript = channel_transcript(&vec![
        TimelineItem::Message {
            role: "user".to_string(),
            sender_name: Some("Ann".to_string()),
            content: "hi".to_string(),
        },
        TimelineItem::Message {
            role: "assistant".to_string(),
            sender_name: None,
            content: "hello".to_string(),
        },
        TimelineItem::BranchRun { description: "look".to_string(), conclusion: None },
        TimelineItem::BranchRun {
            description: "look".to_string(),
            conclusion: Some("found".to_string()),
        },
        TimelineItem::WorkerRun { task: "do".to_string(), result: Some("did".to_string()) },
    ]);
    assert_eq!(
        transcript.as_deref(),
        Some("**Ann**: hi\n\n**assistant**: hello\n\n*[Branch: look]*: found\n\n*[Worker: do]*: did\n\n")
    );
    assert_eq!(channel_transcript(&Vec::new()), None);
}
