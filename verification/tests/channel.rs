use spacebot::agent::channel::{
    should_flush_coalesce_buffer_for_event, should_process_event_for_channel, Channel,
    CoalesceConfig, EventStep, Flush, MemoryPersistenceConfig, MessageStep, RetriggerLimits,
};
use spacebot::agent::channel_context::{
    build_available_channels, build_org_context, AgentLink, ChannelInfo, LinkKind,
};
use spacebot::agent::channel_events::{RetriggerOutcome, RetriggerStep, RETRIGGER_RESULT_SUMMARY};
use spacebot::agent::channel_state::RunLog;
use spacebot::agent::channel_turn::{
    batch_conversation_id, batch_entries, batch_span, collect_batch, combine_batch,
    fallback_response, raw_text_of, relative_text, should_recover, unique_sender_count, Fallback,
};
use spacebot::agent::message::{AssistantContent, Message, PromptError, UserContent};
use spacebot::clock::Timestamp;
use spacebot::events::{
    classify_broadcast_recv_result, BroadcastRecvResult, Fraction, ProcessEvent, ProcessId,
    RecvError,
};
use spacebot::json::JsonValue;
use spacebot::messages::{Attachment, InboundMessage, MessageContent, OutboundResponse};

fn fresh_id() -> u128 {
    uuid::Uuid::new_v4().as_u128()
}

fn fraction(value: f32) -> Fraction {
    Fraction { bits: value.to_bits() }
}

fn recv_channel_event(
    event_rx: &mut tokio::sync::broadcast::Receiver<ProcessEvent>,
) -> BroadcastRecvResult<ProcessEvent> {
    let runtime = tokio::runtime::Builder::new_current_thread().build().unwrap();
    let received = runtime.block_on(event_rx.recv());
    classify_broadcast_recv_result(received.map_err(|error| match error {
        tokio::sync::broadcast::error::RecvError::Closed => RecvError::Closed,
        tokio::sync::broadcast::error::RecvError::Lagged(count) => RecvError::Lagged(count),
    }))
}

#[test]
fn channel_event_loop_continues_after_lagged_broadcast() {
    let (event_tx, mut event_rx) = tokio::sync::broadcast::channel::<ProcessEvent>(2);
    let agent_id = "agent".to_string();
    let channel_id = "channel".to_string();
    let process_id = ProcessId::Channel(channel_id);

    for status in ["one", "two", "three"] {
        let _ = event_tx.send(ProcessEvent::StatusUpdate {
            agent_id: agent_id.clone(),
            process_id: process_id.clone(),
            status: status.to_string(),
        });
    }

    let first = recv_channel_event(&mut event_rx);
    assert!(
        matches!(first, BroadcastRecvResult::Lagged(skipped) if skipped > 0),
        "expected lagged receive, got {first:?}"
    );

    let second = recv_channel_event(&mut event_rx);
    assert!(
        matches!(second, BroadcastRecvResult::Event(ProcessEvent::StatusUpdate { .. })),
        "expected next event after lagged receive, got {second:?}"
    );
}

#[test]
fn channel_event_loop_stops_when_event_bus_closes() {
    let (event_tx, mut event_rx) = tokio::sync::broadcast::channel::<ProcessEvent>(2);
    drop(event_tx);

    let event = recv_channel_event(&mut event_rx);
    assert!(matches!(event, BroadcastRecvResult::Closed));
}

#[test]
fn channel_coalesce_ignores_unrelated_memory_saved_events() {
    let channel_id = "channel-a".to_string();
    let event = ProcessEvent::MemorySaved {
        agent_id: "agent".to_string(),
        memory_id: "memory-1".to_string(),
        channel_id: Some("channel-b".to_string()),
        memory_type: "fact".to_string(),
        importance: fraction(0.8),
        content_summary: "saved memory".to_string(),
    };

    assert!(!should_process_event_for_channel(&event, &channel_id));
}

#[test]
fn channel_coalesce_ignores_unrelated_compaction_events() {
    let channel_id = "channel-a".to_string();
    let event = ProcessEvent::CompactionTriggered {
        agent_id: "agent".to_string(),
        channel_id: "channel-b".to_string(),
        threshold_reached: fraction(0.85),
    };

    assert!(!should_process_event_for_channel(&event, &channel_id));
}

#[test]
fn channel_coalesce_processes_related_worker_events() {
    let channel_id = "channel-a".to_string();
    let event = ProcessEvent::WorkerStatus {
        agent_id: "agent".to_string(),
        worker_id: fresh_id(),
        channel_id: Some(channel_id.clone()),
        status: "running".to_string(),
    };

    assert!(should_process_event_for_channel(&event, &channel_id));
}

#[test]
fn channel_coalesce_processes_related_branch_events() {
    let channel_id = "channel-a".to_string();
    let event = ProcessEvent::BranchResult {
        agent_id: "agent".to_string(),
        branch_id: fresh_id(),
        channel_id: channel_id.clone(),
        conclusion: "done".to_string(),
    };

    assert!(should_process_event_for_channel(&event, &channel_id));
}

fn config() -> CoalesceConfig {
    CoalesceConfig {
        enabled: true,
        debounce_ms: 1_500,
        max_wait_ms: 5_000,
        min_messages: 2,
        multi_user_only: true,
    }
}

const LIMITS: RetriggerLimits = RetriggerLimits { max_per_turn: 1, debounce_ms: 500 };

const PERSIST: MemoryPersistenceConfig =
    MemoryPersistenceConfig { enabled: true, message_interval: 2 };

/// A time by its milliseconds since the epoch.
fn at(millis: u32) -> Timestamp {
    Timestamp { seconds: i64::from(millis / 1_000), nanos: millis % 1_000 * 1_000_000 }
}

fn inbound(sender: &str, text: &str, millis: u32) -> InboundMessage {
    InboundMessage {
        id: "m".to_string(),
        source: "discord".to_string(),
        adapter: None,
        conversation_id: "discord:guild:1".to_string(),
        sender_id: sender.to_string(),
        agent_id: None,
        content: MessageContent::Text(text.to_string()),
        timestamp: at(millis),
        metadata: Vec::new(),
        formatted_author: None,
    }
}

fn system_message(text: &str) -> InboundMessage {
    InboundMessage {
        source: "system".to_string(),
        sender_id: "system".to_string(),
        ..inbound("system", text, 0)
    }
}

fn channel() -> Channel {
    Channel::new("channel-a".to_string(), "agent".to_string(), true)
}

fn branch_result(branch_id: u128, conclusion: &str) -> ProcessEvent {
    ProcessEvent::BranchResult {
        agent_id: "agent".to_string(),
        branch_id,
        channel_id: "channel-a".to_string(),
        conclusion: conclusion.to_string(),
    }
}

fn assistant_text_of(message: &Message) -> &str {
    match message {
        Message::Assistant { content, .. } => match &content[0] {
            AssistantContent::Text(text) => text,
            _ => panic!("expected text"),
        },
        _ => panic!("expected assistant message"),
    }
}

#[test]
fn only_lifecycle_events_flush_the_buffer() {
    assert!(should_flush_coalesce_buffer_for_event(&branch_result(1, "done")));
    assert!(!should_flush_coalesce_buffer_for_event(&ProcessEvent::ToolStarted {
        agent_id: "agent".to_string(),
        process_id: ProcessId::Worker(1),
        channel_id: Some("channel-a".to_string()),
        tool_name: "shell".to_string(),
        args: String::new(),
    }));

    let mut waiting = channel();
    waiting.receive_message(inbound("a", "one", 1_000), &config(), 0, at(1_000));
    let other = ProcessEvent::BranchResult {
        agent_id: "agent".to_string(),
        branch_id: 1,
        channel_id: "channel-b".to_string(),
        conclusion: "done".to_string(),
    };
    assert!(matches!(waiting.receive_event(&other), EventStep::Ignored));
    assert_eq!(waiting.coalesce_buffer.len(), 1);
    assert!(matches!(
        waiting.receive_event(&branch_result(1, "done")),
        EventStep::Handle { flushed: Flush::Single(_) }
    ));
    assert!(waiting.coalesce_buffer.is_empty());
    assert_eq!(waiting.coalesce_deadline, None);
}

#[test]
fn messages_wait_for_others_within_bounds() {
    let mut waiting = channel();
    assert!(matches!(
        waiting.receive_message(inbound("a", "one", 10_000), &config(), 100, at(10_000)),
        MessageStep::Buffered
    ));
    assert_eq!(waiting.coalesce_deadline, Some(1_600));
    assert_eq!(waiting.next_wait(100), Some(1_500));
    assert_eq!(waiting.next_wait(1_700), Some(1));

    // From the second message on the deadline is only moved forward.
    waiting.receive_message(inbound("b", "two", 10_900), &config(), 1_000, at(10_900));
    assert_eq!(waiting.coalesce_deadline, Some(1_600));
    waiting.receive_message(inbound("b", "three", 14_900), &config(), 1_200, at(14_900));
    assert_eq!(waiting.coalesce_deadline, Some(1_300));

    let (early, _) = waiting.on_deadline(1_299);
    assert!(matches!(early, Flush::Nothing));
    let (flushed, retrigger) = waiting.on_deadline(1_300);
    assert!(matches!(flushed, Flush::Batch(ref messages) if messages.len() == 3));
    assert!(!retrigger);
    assert_eq!(waiting.next_wait(1_300), None);
}

#[test]
fn some_messages_do_not_wait() {
    let mut direct = channel();
    direct.conversation_id = Some("telegram:dm:7".to_string());
    assert!(direct.is_dm());
    assert!(!direct.should_coalesce(&inbound("a", "one", 0), &config()));
    assert!(direct.should_coalesce(
        &inbound("a", "one", 0),
        &CoalesceConfig { multi_user_only: false, ..config() }
    ));
    assert!(!channel().should_coalesce(&system_message("wake"), &config()));
    assert!(!channel()
        .should_coalesce(&inbound("a", "one", 0), &CoalesceConfig { enabled: false, ..config() }));

    let mut waiting = channel();
    waiting.receive_message(inbound("a", "one", 0), &config(), 0, at(0));
    assert!(matches!(
        waiting.receive_message(system_message("wake"), &config(), 0, at(0)),
        MessageStep::Handle { flushed: Flush::Single(_), message } if message.source == "system"
    ));
}

#[test]
fn adapters_come_from_the_source_or_the_conversation() {
    let mut unknown = channel();
    assert_eq!(unknown.current_adapter(), None);
    unknown.conversation_id = Some("email:thread".to_string());
    assert_eq!(unknown.current_adapter(), Some("email"));
    assert!(unknown.suppress_plaintext_fallback());
    unknown.source_adapter = Some("discord".to_string());
    assert_eq!(unknown.current_adapter(), Some("discord"));
    assert!(!unknown.suppress_plaintext_fallback());
    unknown.source_adapter = Some(String::new());
    assert_eq!(unknown.current_adapter(), None);
}

#[test]
fn results_wake_the_channel_until_the_cap() {
    let mut woken = channel();
    woken.track(&inbound("a", "go", 0));
    let branch_id = uuid::Uuid::from_u128(7).as_u128();
    let started = ProcessEvent::BranchStarted {
        agent_id: "agent".to_string(),
        branch_id,
        channel_id: "channel-a".to_string(),
        description: "look".to_string(),
        reply_to_message_id: Some("42".to_string()),
    };
    assert_eq!(
        woken.handle_event(&started, &LIMITS, 0, at(0)),
        Some(RunLog::BranchStarted {
            channel_id: "channel-a".to_string(),
            branch_id,
            description: "look".to_string(),
        })
    );
    woken.handle_event(&branch_result(branch_id, "found it"), &LIMITS, 1_000, at(0));
    assert!(woken.pending_retrigger);
    assert_eq!(woken.retrigger_deadline, Some(1_500));
    assert_eq!(woken.on_deadline(1_500).1, true);

    assert_eq!(woken.begin_retrigger(), RetriggerStep::Send);
    let message = woken.retrigger_message("wake up".to_string(), 9, at(77)).unwrap();
    assert_eq!(message.source, "system");
    assert_eq!(message.conversation_id, "discord:guild:1");
    assert_eq!(message.id, "00000000-0000-0000-0000-000000000009");
    assert_eq!(
        message.metadata,
        vec![
            ("reply_to_message_id".to_string(), JsonValue::Text("42".to_string())),
            (
                RETRIGGER_RESULT_SUMMARY.to_string(),
                JsonValue::Text(
                    "[branch 00000000-0000-0000-0000-000000000007 completed]: found it".to_string()
                )
            ),
        ]
    );

    woken.finish_retrigger(RetriggerOutcome::Full, &LIMITS, 2_000);
    assert_eq!(woken.retrigger_deadline, Some(2_500));
    assert_eq!(woken.pending_results.len(), 1);
    woken.finish_retrigger(RetriggerOutcome::Queued, &LIMITS, 2_500);
    assert_eq!(woken.retrigger_count, 1);
    assert!(woken.pending_results.is_empty());

    woken.handle_event(&branch_result(8, "late"), &LIMITS, 3_000, at(0));
    assert!(!woken.pending_retrigger);
    assert_eq!(woken.state.history.len(), 1);
    assert_eq!(
        assistant_text_of(&woken.state.history[0]),
        "[Background branch 00000000-0000-0000-0000-000000000008 completed]: late"
    );
}

#[test]
fn retriggers_without_results_are_forgotten() {
    let mut woken = channel();
    assert_eq!(woken.begin_retrigger(), RetriggerStep::Nothing);
    woken.handle_event(&branch_result(8, "late"), &LIMITS, 0, at(0));
    // There is no conversation to tell it to.
    assert_eq!(woken.begin_retrigger(), RetriggerStep::Nothing);
    assert!(woken.pending_results.is_empty());
    assert!(woken.retrigger_message("wake".to_string(), 1, at(0)).is_none());
}

#[test]
fn memory_branches_say_nothing() {
    let mut quiet = channel();
    quiet.memory_branch_spawned(5);
    quiet.handle_event(&branch_result(5, "saved"), &LIMITS, 0, at(0));
    assert!(!quiet.pending_retrigger);
    assert!(quiet.pending_results.is_empty());
    assert!(quiet.memory_persistence_branches.is_empty());
}

#[test]
fn failed_workers_are_told_as_failed() {
    let mut woken = channel();
    woken.track(&inbound("a", "go", 0));
    woken.handle_event(
        &ProcessEvent::WorkerComplete {
            agent_id: "agent".to_string(),
            worker_id: 3,
            channel_id: Some("channel-a".to_string()),
            result: "broke".to_string(),
            notify: true,
            success: false,
        },
        &LIMITS,
        0,
        at(0),
    );
    assert_eq!(woken.pending_results[0].process_type, "worker");
    assert!(!woken.pending_results[0].success);
}

#[test]
fn turns_start_and_end() {
    let mut talking = channel();
    let mut message = inbound("ann", "hi", 0);
    message
        .metadata
        .push(("topic".to_string(), JsonValue::Text("greetings".to_string())));
    let turn = talking.begin_message(&message, "noon");
    assert_eq!(turn.user_text, "ann [noon]: hi");
    assert!(!turn.is_retrigger);
    let log = turn.log.unwrap();
    assert_eq!(log.text, "hi");
    assert_eq!(log.metadata.len(), message.metadata.len());
    let (name, value) = log.metadata.last().unwrap();
    assert_eq!(name, "topic");
    assert!(matches!(value, JsonValue::Text(text) if text == "greetings"));
    assert_eq!(talking.conversation_id.as_deref(), Some("discord:guild:1"));
    assert_eq!(talking.source_adapter.as_deref(), Some("discord"));
    assert_eq!(talking.context_request(&message).unwrap().platform, "discord");

    let plan = talking.begin_turn(vec![UserContent::Other("image".to_string())], false, 5, 3);
    assert_eq!(plan.max_turns, 5);
    assert!(plan.allow_direct_reply);
    assert_eq!(plan.history_len_before, 1);

    // The history ends with the user's side, so that a retrigger needs a bridge.
    let plan = talking.begin_turn(Vec::new(), true, 5, 3);
    assert_eq!(plan.max_turns, 3);
    assert_eq!(plan.history_len_before, 2);
    assert_eq!(
        assistant_text_of(&talking.state.history[1]),
        "[acknowledged — working on it in background]"
    );

    let mut wake = system_message("wake");
    wake.metadata.push((
        RETRIGGER_RESULT_SUMMARY.to_string(),
        JsonValue::Text("found it".to_string()),
    ));
    assert!(!talking.finish_message(&wake, false, false, &PERSIST));
    assert_eq!(talking.state.history.len(), 2);
    assert_eq!(
        assistant_text_of(&talking.state.history[1]),
        "[background work completed but relay to user failed — include this in your next response]\nfound it"
    );

    talking.retrigger_count = 1;
    assert!(!talking.finish_message(&message, true, false, &PERSIST));
    assert_eq!(talking.retrigger_count, 0);
    assert!(talking.finish_message(&message, true, false, &PERSIST));
    assert_eq!(talking.message_count, 0);
    talking.retrigger_count = 2;
    assert!(talking.finish_batch(2, &PERSIST));
    assert_eq!(talking.retrigger_count, 0);
    assert!(!talking.finish_batch(
        5,
        &MemoryPersistenceConfig { enabled: true, message_interval: 0 }
    ));
}

#[test]
fn reply_targets_follow_the_messages() {
    let mut replying = channel();
    let with_id = |id: &str| InboundMessage {
        metadata: vec![("message_id".to_string(), JsonValue::Text(id.to_string()))],
        ..inbound("a", "x", 0)
    };
    replying.set_reply_target(&with_id("1"));
    assert_eq!(replying.state.reply_target_message_id.as_deref(), Some("1"));
    replying.set_batch_reply_target(&vec![with_id("2"), with_id("3"), inbound("a", "x", 0)]);
    assert_eq!(replying.state.reply_target_message_id.as_deref(), Some("3"));
}

#[test]
fn batches_tell_who_said_what_when() {
    let messages = vec![
        inbound("ann", "one", 0),
        system_message("skip me"),
        inbound("bob", "two", 59_000),
        inbound("ann", "", 125_500),
    ];
    assert_eq!(batch_span(&messages), (at(0), at(125_500)));
    assert_eq!(unique_sender_count(&messages), 3);
    assert_eq!(batch_conversation_id(&messages), "discord:guild:1");
    let times: Vec<String> = (0..4).map(|i| format!("t{i}")).collect();
    let entries = batch_entries(&messages, &times);
    let texts: Vec<&str> = entries.iter().map(|entry| entry.text.as_str()).collect();
    assert_eq!(
        texts,
        vec![
            "[ann] (t0; 2m ago): one",
            "[bob] (t2; 1m ago): two",
            "[ann] (t3; just now): [attachment or empty message]",
        ]
    );
    assert_eq!(entries[1].position, 2);
    assert_eq!(relative_text(59), "59s ago");
    assert_eq!(relative_text(60), "1m ago");

    let contents = collect_batch(
        &entries,
        vec![Vec::new(), vec![UserContent::Other("image".to_string())], Vec::new()],
    );
    let (text, attachments) = combine_batch(messages.len(), contents);
    assert_eq!(
        text,
        "[4 messages arrived rapidly in this channel]\n\n[ann] (t0; 2m ago): one\n[bob] (t2; 1m ago): two\n[ann] (t3; just now): [attachment or empty message]"
    );
    assert_eq!(attachments, vec![UserContent::Other("image".to_string())]);
}

#[test]
fn times_are_told_apart_to_the_nanosecond() {
    let timed = |seconds: i64, nanos: u32| InboundMessage {
        timestamp: Timestamp { seconds, nanos },
        ..inbound("ann", "x", 0)
    };
    let texts = |messages: Vec<InboundMessage>| -> Vec<String> {
        let times = vec!["t".to_string(); messages.len()];
        batch_entries(&messages, &times).into_iter().map(|entry| entry.text).collect()
    };
    // One nanosecond short of a second, then a whole one.
    let short = texts(vec![timed(10, 1), timed(11, 0)]);
    assert_eq!(short[0], "[ann] (t; just now): x");
    let whole = texts(vec![timed(10, 1), timed(11, 1)]);
    assert_eq!(whole[0], "[ann] (t; 1s ago): x");
    let span = batch_span(&vec![timed(10, 5), timed(10, 7), timed(10, 6)]);
    assert_eq!(
        span,
        (Timestamp { seconds: 10, nanos: 5 }, Timestamp { seconds: 10, nanos: 7 })
    );

    // A leap second counts for those that lie behind it in the day.
    let leap = texts(vec![timed(59, 1_000_000_000), timed(119, 0)]);
    assert_eq!(leap[0], "[ann] (t; 1m ago): x");
    let next_day = texts(vec![timed(86_399, 1_500_000_000), timed(86_400, 0)]);
    assert_eq!(next_day[0], "[ann] (t; just now): x");

    // A message from the future has not waited.
    let mut waiting = channel();
    waiting.receive_message(inbound("a", "one", 9_000), &config(), 0, at(1_000));
    waiting.receive_message(inbound("a", "two", 9_000), &config(), 10, at(1_000));
    assert_eq!(waiting.coalesce_deadline, Some(1_500));

    assert_eq!(Timestamp { seconds: 2, nanos: 1_999_999 }.unix_millis(), 2_001);
    assert_eq!(Timestamp { seconds: -1, nanos: 500_000_000 }.unix_millis(), -500);
    assert_eq!(Timestamp { seconds: 59, nanos: 1_500_000_000 }.unix_millis(), 60_500);
    assert!(Timestamp { seconds: 59, nanos: 1_999_999_999 }.is_valid());
    assert!(Timestamp { seconds: -1, nanos: 1_000_000_000 }.is_valid());
    assert!(!Timestamp { seconds: 58, nanos: 1_000_000_000 }.is_valid());
    assert!(!Timestamp { seconds: 59, nanos: 2_000_000_000 }.is_valid());
    assert!(!Timestamp { seconds: i64::MAX, nanos: 0 }.is_valid());
}

#[test]
fn answers_are_sent_or_held_back() {
    let mut answering = channel();
    answering.track(&inbound("ann", "hi", 0));
    let ok: Result<String, PromptError> = Ok("  hello ".to_string());

    assert!(matches!(
        answering.handle_agent_result(&ok, false, false, false, false, false),
        Fallback::Send { text, source, named: true } if text == "hello" && source == "discord"
    ));
    assert!(matches!(
        answering.handle_agent_result(&ok, true, false, true, false, false),
        Fallback::Send { named: false, .. }
    ));
    // On a retrigger text is held back unless the model skipped.
    for replied in [false, true] {
        assert!(matches!(
            answering.handle_agent_result(
                &Ok("All done.".to_string()),
                false,
                replied,
                true,
                false,
                false
            ),
            Fallback::Silent
        ));
    }
    assert!(matches!(
        answering.handle_agent_result(&Ok("  ".to_string()), true, false, true, false, false),
        Fallback::Silent
    ));
    assert!(matches!(
        answering.handle_agent_result(&ok, true, false, false, false, false),
        Fallback::Silent
    ));
    assert!(matches!(
        answering.handle_agent_result(&ok, false, true, false, false, false),
        Fallback::Silent
    ));
    assert!(matches!(
        answering.handle_agent_result(&ok, false, false, false, true, true),
        Fallback::Blocked
    ));
    assert!(matches!(
        answering.handle_agent_result(&ok, false, false, false, false, true),
        Fallback::Leaked
    ));
    assert!(matches!(
        answering.handle_agent_result(
            &Ok("[reply]{\"content\":\"hey\"}".to_string()),
            false,
            false,
            false,
            false,
            false
        ),
        Fallback::Send { text, .. } if text == "hey"
    ));
    assert!(matches!(
        answering.handle_agent_result(
            &Err(PromptError::MaxTurnsError),
            false,
            false,
            false,
            false,
            false
        ),
        Fallback::Silent
    ));
    answering.source_adapter = Some("email".to_string());
    assert!(matches!(
        answering.handle_agent_result(&ok, false, false, false, false, false),
        Fallback::Suppressed
    ));

    assert!(should_recover(&ok, true, 1));
    assert!(!should_recover(&ok, true, 2));
    assert!(!should_recover(&ok, false, 0));
    assert!(!should_recover(&Err(PromptError::MaxTurnsError), true, 0));
    assert!(fallback_response(String::new()).is_none());
    assert!(matches!(
        fallback_response("x".to_string()),
        Some(OutboundResponse::Text(text)) if text == "x"
    ));
}

#[test]
fn contents_are_told_as_text() {
    let media = MessageContent::Media {
        text: None,
        attachments: vec![Attachment {
            filename: "a.png".to_string(),
            mime_type: "image/png".to_string(),
            url: "https://example.com/a.png".to_string(),
            size_bytes: None,
            auth_header: None,
        }],
    };
    assert_eq!(raw_text_of(&media), "");
    assert_eq!(raw_text_of(&MessageContent::Text("x".to_string())), "x");
}

#[test]
fn other_channels_are_listed() {
    let info = |id: &str, platform: &str, name: Option<&str>| ChannelInfo {
        id: id.to_string(),
        platform: platform.to_string(),
        display_name: name.map(|name| name.to_string()),
    };
    let channels = vec![
        info("channel-a", "discord", None),
        info("channel-b", "slack", Some("general")),
        info("cron-1", "cron", None),
        info("hook-1", "webhook", None),
        info("channel-c", "discord", None),
    ];
    let listed = build_available_channels(&channels, "channel-a").unwrap();
    let names: Vec<&str> = listed.iter().map(|entry| entry.name.as_str()).collect();
    assert_eq!(names, vec!["general", "channel-c"]);
    assert!(build_available_channels(&channels[..1].to_vec(), "channel-a").is_none());
}

#[test]
fn links_give_every_agent_a_rank() {
    let link = |from: &str, to: &str, kind: LinkKind| AgentLink {
        from_agent_id: from.to_string(),
        to_agent_id: to.to_string(),
        kind,
    };
    let links = vec![
        link("boss", "me", LinkKind::Hierarchical),
        link("me", "helper", LinkKind::Hierarchical),
        link("friend", "me", LinkKind::Peer),
    ];
    let names = vec![("boss".to_string(), "The Boss".to_string())];
    let context = build_org_context(&links, "me", &names).unwrap();
    assert_eq!(context.superiors[0].name, "The Boss");
    assert_eq!(context.subordinates[0].id, "helper");
    assert_eq!(context.peers[0].name, "friend");
    assert!(context.peers[0].is_human);
    assert!(!context.superiors[0].is_human);
    assert!(build_org_context(&Vec::new(), "me", &names).is_none());
}
