//! Cortex chat: persistent admin conversation with the cortex.

use crate::agent::message::{assistant_text, is_assistant_text, is_user_text_of, user_text, Message};
use crate::clock::{rfc3339_text, utc_rfc3339, Timestamp};
use crate::events::ProcessEvent;
use crate::hooks::{terminates, HookAction, SpacebotHook, ToolCallHookAction};
use crate::text::{decimal, ellipsized, joined, text_eq, truncate_utf8_ellipsis, u64_text};
use vstd::prelude::*;
use vstd::string::*;

verus! {

/// A persisted cortex chat message.
#[derive(Debug, Clone)]
pub struct CortexChatMessage {
    pub id: String,
    pub thread_id: String,
    pub role: String,
    pub content: String,
    pub channel_context: Option<String>,
    pub created_at: String,
}

/// Events emitted during a cortex chat response.
#[derive(Debug, Clone)]
pub enum CortexChatEvent {
    /// The cortex is processing.
    Thinking,
    /// A tool call started.
    ToolStarted { tool: String },
    /// A tool call completed.
    ToolCompleted { tool: String, result_preview: String },
    /// The full response is ready.
    Done { full_text: String },
    /// An error occurred.
    Error { message: String },
}

/// Why a message could not be sent.
#[derive(Debug, Clone, PartialEq)]
pub enum CortexChatSendError {
    /// Another message is being answered.
    Busy,
    Database(String),
    Prompt(String),
}

/// The most messages of a thread that the cortex is reminded of.
pub const CHAT_HISTORY_LIMIT: i64 = 100;

/// The most entries of a channel that the cortex is shown.
pub const TRANSCRIPT_LIMIT: i64 = 50;

/// The most turns that an answer takes.
pub const CHAT_MAX_TURNS: usize = 50;

/// The most bytes of a tool's result that the admin is shown.
pub const PREVIEW_BYTES: usize = 200;

/// Lets one message at a time be answered.
#[derive(Debug)]
pub struct SendLock {
    held: bool,
}

/// The right to answer a message.
#[derive(Debug)]
pub struct SendGuard {
    _private: (),
}

impl SendLock {
    /// Whether a message is being answered.
    pub closed spec fn is_held(self) -> bool {
        self.held
    }

    pub fn new() -> (lock: SendLock)
        ensures
            !lock.is_held(),
    {
        SendLock { held: false }
    }

    /// The message was answered, or will not be.
    pub fn release(&mut self, _guard: SendGuard)
        ensures
            !final(self).is_held(),
    {
        self.held = false;
    }
}

/// Begins to answer a message, unless another is being answered.
pub fn try_acquire_send_lock(send_lock: &mut SendLock) -> (result: Result<
    SendGuard,
    CortexChatSendError,
>)
    ensures
        match result {
            Ok(_) => !old(send_lock).is_held(),
            Err(error) => old(send_lock).is_held() && error == CortexChatSendError::Busy,
        },
        final(send_lock).is_held(),
{
    if send_lock.held {
        Err(CortexChatSendError::Busy)
    } else {
        send_lock.held = true;
        Ok(SendGuard { _private: () })
    }
}

/// Hook that tells the admin what tools the cortex uses.
#[derive(Debug)]
pub struct CortexChatHook {
    pub spacebot_hook: SpacebotHook,
}

impl CortexChatHook {
    pub fn new(spacebot_hook: SpacebotHook) -> (hook: CortexChatHook)
        ensures
            hook.spacebot_hook == spacebot_hook,
    {
        CortexChatHook { spacebot_hook }
    }

    /// A tool is about to run. The admin is told where it is let.
    pub fn on_tool_call(&mut self, tool_name: &str, leak: Option<&str>, capped_args: String) -> (result: (
        ToolCallHookAction,
        Option<ProcessEvent>,
        Option<CortexChatEvent>,
    ))
        ensures
            final(self).spacebot_hook == (SpacebotHook {
                saw_tool_call: true,
                ..old(self).spacebot_hook
            }),
            (result.0 is Skip) == (old(self).spacebot_hook.process_type
                == crate::events::ProcessType::Channel && tool_name@ == "reply"@ && leak is Some),
            match result.0 {
                ToolCallHookAction::Continue => {
                    &&& result.1 matches Some(
                        ProcessEvent::ToolStarted {
                            agent_id,
                            process_id,
                            channel_id,
                            tool_name: name,
                            args,
                        },
                    ) && agent_id == old(self).spacebot_hook.agent_id && process_id == old(
                        self,
                    ).spacebot_hook.process_id && channel_id == old(self).spacebot_hook.channel_id
                        && name@ == tool_name@ && args == capped_args
                    &&& result.2 matches Some(CortexChatEvent::ToolStarted { tool }) && tool@
                        == tool_name@
                },
                ToolCallHookAction::Skip { reason } => reason@
                    == "Reply blocked: content contained a secret."@ && result.1 is None
                    && result.2 is None,
            },
    {
        let (action, event) = self.spacebot_hook.on_tool_call(tool_name, leak, capped_args);
        match action {
            ToolCallHookAction::Continue => (
                ToolCallHookAction::Continue,
                event,
                Some(CortexChatEvent::ToolStarted { tool: tool_name.to_owned() }),
            ),
            ToolCallHookAction::Skip { reason } => (
                ToolCallHookAction::Skip { reason },
                event,
                None,
            ),
        }
    }

    /// A tool has run. The admin is shown the beginning of its result, unless a
    /// secret was found in it, which ends the answer.
    pub fn on_tool_result(&self, tool_name: &str, leak: Option<&str>, result: &str) -> (outcome: (
        HookAction,
        Option<ProcessEvent>,
        Option<CortexChatEvent>,
    ))
        ensures
            ({
                let kind = self.spacebot_hook.process_type;
                if leak is Some && kind != crate::events::ProcessType::Worker && kind
                    != crate::events::ProcessType::Branch {
                    &&& terminates(
                        outcome.0,
                        "Tool output contained a secret. Agent terminated to prevent exfiltration."@,
                    )
                    &&& outcome.1 is None
                    &&& outcome.2 is None
                } else {
                    &&& outcome.0 is Continue
                    &&& outcome.1 matches Some(
                        ProcessEvent::ToolCompleted {
                            agent_id,
                            process_id,
                            channel_id,
                            tool_name: name,
                            result: shown,
                        },
                    ) && agent_id == self.spacebot_hook.agent_id && process_id
                        == self.spacebot_hook.process_id && channel_id
                        == self.spacebot_hook.channel_id && name@ == tool_name@ && shown@
                        == ellipsized(result@, PREVIEW_BYTES as int)
                    &&& outcome.2 matches Some(
                        CortexChatEvent::ToolCompleted { tool, result_preview },
                    ) && tool@ == tool_name@ && result_preview@ == ellipsized(
                        result@,
                        PREVIEW_BYTES as int,
                    )
                }
            }),
    {
        match self.spacebot_hook.guard_tool_result(leak) {
            HookAction::Continue => {},
            HookAction::Terminate { reason } => {
                return (HookAction::Terminate { reason }, None, None);
            },
        }
        let preview = truncate_utf8_ellipsis(result, PREVIEW_BYTES);
        let event = self.spacebot_hook.emit_tool_completed_event_from_capped(
            tool_name,
            preview.clone(),
        );
        (
            HookAction::Continue,
            Some(event),
            Some(
                CortexChatEvent::ToolCompleted {
                    tool: tool_name.to_owned(),
                    result_preview: preview,
                },
            ),
        )
    }
}

/// A row of the table of chat messages.
#[derive(Debug, Clone)]
pub struct ChatMessageRow {
    pub id: String,
    pub thread_id: String,
    pub role: String,
    pub content: String,
    pub channel_context: Option<String>,
    pub created_at: Timestamp,
}

/// Whether a message is the one of a row.
pub open spec fn is_message_of(message: CortexChatMessage, row: ChatMessageRow) -> bool {
    &&& message.id == row.id
    &&& message.thread_id == row.thread_id
    &&& message.role == row.role
    &&& message.content == row.content
    &&& message.channel_context == row.channel_context
    &&& message.created_at@ == utc_rfc3339(
        row.created_at.seconds as int,
        row.created_at.nanos as int,
    )
}

impl ChatMessageRow {
    /// The message of a row.
    pub fn into_message(self) -> (message: CortexChatMessage)
        requires
            self.created_at.valid(),
        ensures
            is_message_of(message, self),
    {
        CortexChatMessage {
            id: self.id,
            thread_id: self.thread_id,
            role: self.role,
            content: self.content,
            channel_context: self.channel_context,
            created_at: rfc3339_text(self.created_at),
        }
    }
}

/// Puts the newest messages of a thread, newest first, in the order they were
/// written in.
pub fn chronological(rows: Vec<ChatMessageRow>) -> (messages: Vec<CortexChatMessage>)
    requires
        forall|i: int| 0 <= i < rows@.len() ==> (#[trigger] rows@[i]).created_at.valid(),
    ensures
        messages@.len() == rows@.len(),
        forall|i: int|
            0 <= i < messages@.len() ==> is_message_of(
                #[trigger] messages@[i],
                rows@[rows@.len() - 1 - i],
            ),
{
    let ghost all = rows@;
    let mut rest = rows;
    let mut messages: Vec<CortexChatMessage> = Vec::new();
    assert(rest@ =~= all.take(all.len() as int));
    while rest.len() > 0
        invariant
            messages@.len() + rest@.len() == all.len(),
            rest@ == all.take(rest@.len() as int),
            forall|i: int| 0 <= i < all.len() ==> (#[trigger] all[i]).created_at.valid(),
            forall|i: int|
                0 <= i < messages@.len() ==> is_message_of(
                    #[trigger] messages@[i],
                    all[all.len() - 1 - i],
                ),
        decreases rest@.len(),
    {
        let ghost count = rest@.len() as int;
        match rest.pop() {
            Some(row) => {
                assert(row == all[count - 1]);
                assert(rest@ =~= all.take(count - 1));
                messages.push(row.into_message());
            },
            None => {},
        }
    }
    messages
}

/// Whether a message of a thread is one of the conversation: what the admin or
/// the cortex said.
pub open spec fn is_spoken(message: CortexChatMessage) -> bool {
    message.role@ == "user"@ || message.role@ == "assistant"@
}

/// Whether a message of the conversation says what one of a thread does.
pub open spec fn says(message: Message, stored: CortexChatMessage) -> bool {
    if stored.role@ == "user"@ {
        is_user_text_of(message, stored.content@)
    } else {
        is_assistant_text(message, stored.content@)
    }
}

/// The messages of the conversation among the first ones of a thread.
pub open spec fn spoken(messages: Seq<CortexChatMessage>, count: int) -> Seq<CortexChatMessage>
    decreases count,
{
    if count <= 0 {
        Seq::empty()
    } else if is_spoken(messages[count - 1]) {
        spoken(messages, count - 1).push(messages[count - 1])
    } else {
        spoken(messages, count - 1)
    }
}

/// The conversation that an answer goes on from: all of a thread but its last
/// message, which is the one to be answered.
pub fn chat_history(chat_messages: &Vec<CortexChatMessage>) -> (history: Vec<Message>)
    ensures
        ({
            let said = spoken(chat_messages@, chat_messages@.len() - 1);
            &&& history@.len() == said.len()
            &&& forall|i: int| 0 <= i < history@.len() ==> says(#[trigger] history@[i], said[i])
        }),
{
    let mut history: Vec<Message> = Vec::new();
    let count: usize = chat_messages.len().saturating_sub(1);
    let mut i: usize = 0;
    while i < count
        invariant
            i <= count,
            count <= chat_messages.len(),
            history@.len() == spoken(chat_messages@, i as int).len(),
            forall|k: int|
                0 <= k < history@.len() ==> says(
                    #[trigger] history@[k],
                    spoken(chat_messages@, i as int)[k],
                ),
        decreases count - i,
    {
        let message = &chat_messages[i];
        if text_eq(message.role.as_str(), "user") {
            history.push(user_text(message.content.clone()));
        } else if text_eq(message.role.as_str(), "assistant") {
            history.push(assistant_text(message.content.clone()));
        }
        i = i + 1;
    }
    history
}

/// What came of asking the model.
#[derive(Debug, Clone)]
pub enum ChatOutcome {
    Answered(String),
    Failed(String),
    TimedOut,
}

/// How long the model is waited for, in seconds.
pub fn prompt_timeout_secs(branch_timeout_secs: u64) -> (secs: u64)
    ensures
        secs == if branch_timeout_secs < 1 {
            1
        } else {
            branch_timeout_secs
        },
{
    if branch_timeout_secs < 1 {
        1
    } else {
        branch_timeout_secs
    }
}

/// What is stored of an answer.
pub open spec fn stored_answer(outcome: ChatOutcome, timeout_secs: u64) -> Seq<char> {
    match outcome {
        ChatOutcome::Answered(response) => response@,
        ChatOutcome::Failed(error) => "Cortex chat error: "@ + error@,
        ChatOutcome::TimedOut => "Cortex chat timed out after "@ + decimal(timeout_secs as int)
            + "s while waiting for a model response."@,
    }
}

/// What is stored of an answer, and what the admin is told.
pub fn finish_chat(outcome: ChatOutcome, timeout_secs: u64) -> (result: (String, CortexChatEvent))
    ensures
        result.0@ == stored_answer(outcome, timeout_secs),
        match result.1 {
            CortexChatEvent::Done { full_text } => outcome is Answered && full_text@
                == stored_answer(outcome, timeout_secs),
            CortexChatEvent::Error { message } => !(outcome is Answered) && message@
                == stored_answer(outcome, timeout_secs),
            _ => false,
        },
{
    match outcome {
        ChatOutcome::Answered(response) => {
            (response.clone(), CortexChatEvent::Done { full_text: response })
        },
        ChatOutcome::Failed(error) => {
            let message = "Cortex chat error: ".to_owned().concat(error.as_str());
            (message.clone(), CortexChatEvent::Error { message })
        },
        ChatOutcome::TimedOut => {
            let message = "Cortex chat timed out after ".to_owned().concat(
                u64_text(timeout_secs).as_str(),
            ).concat("s while waiting for a model response.");
            (message.clone(), CortexChatEvent::Error { message })
        },
    }
}

/// An entry of the timeline of a channel.
#[derive(Debug, Clone)]
pub enum TimelineItem {
    Message { role: String, sender_name: Option<String>, content: String },
    BranchRun { description: String, conclusion: Option<String> },
    WorkerRun { task: String, result: Option<String> },
}

/// An entry in a transcript. Work that has no result yet is left out.
pub open spec fn item_text(item: TimelineItem) -> Seq<char> {
    match item {
        TimelineItem::Message { role, sender_name, content } => "**"@ + (match sender_name {
            Some(name) => name@,
            None => role@,
        }) + "**: "@ + content@ + "\n\n"@,
        TimelineItem::BranchRun { description, conclusion } => match conclusion {
            Some(text) => "*[Branch: "@ + description@ + "]*: "@ + text@ + "\n\n"@,
            None => Seq::empty(),
        },
        TimelineItem::WorkerRun { task, result } => match result {
            Some(text) => "*[Worker: "@ + task@ + "]*: "@ + text@ + "\n\n"@,
            None => Seq::empty(),
        },
    }
}

/// The first entries in a transcript.
pub open spec fn items_text(items: Seq<TimelineItem>, count: int) -> Seq<char>
    decreases count,
{
    if count <= 0 {
        Seq::empty()
    } else {
        items_text(items, count - 1) + item_text(items[count - 1])
    }
}

fn append_item(transcript: &mut String, item: &TimelineItem)
    ensures
        final(transcript)@ == old(transcript)@ + item_text(*item),
{
    match item {
        TimelineItem::Message { role, sender_name, content } => {
            let name = match sender_name {
                Some(name) => name.as_str(),
                None => role.as_str(),
            };
            transcript.append("**");
            transcript.append(name);
            transcript.append("**: ");
            transcript.append(content.as_str());
            transcript.append("\n\n");
        },
        TimelineItem::BranchRun { description, conclusion } => {
            match conclusion {
                Some(text) => {
                    transcript.append("*[Branch: ");
                    transcript.append(description.as_str());
                    transcript.append("]*: ");
                    transcript.append(text.as_str());
                    transcript.append("\n\n");
                },
                None => {},
            }
        },
        TimelineItem::WorkerRun { task, result } => {
            match result {
                Some(text) => {
                    transcript.append("*[Worker: ");
                    transcript.append(task.as_str());
                    transcript.append("]*: ");
                    transcript.append(text.as_str());
                    transcript.append("\n\n");
                },
                None => {},
            }
        },
    }
    assert(transcript@ =~= old(transcript)@ + item_text(*item));
}

/// The timeline of a channel as a transcript: none where nothing happened.
pub fn channel_transcript(items: &Vec<TimelineItem>) -> (transcript: Option<String>)
    ensures
        match transcript {
            Some(text) => items@.len() > 0 && text@ == items_text(items@, items@.len() as int),
            None => items@.len() == 0,
        },
{
    if items.len() == 0 {
        return None;
    }
    let mut transcript = String::new();
    let mut i: usize = 0;
    while i < items.len()
        invariant
            i <= items.len(),
            transcript@ == items_text(items@, i as int),
        decreases items.len() - i,
    {
        append_item(&mut transcript, &items[i]);
        i = i + 1;
    }
    Some(transcript)
}

/// Just what the user and the assistant said is remembered of a thread, in order.
pub proof fn law_what_was_said_is_remembered(messages: Seq<CortexChatMessage>, count: int)
    requires
        0 <= count <= messages.len(),
    ensures
        spoken(messages, count) == messages.take(count).filter(
            |message: CortexChatMessage|
                message.role@ == "user"@ || message.role@ == "assistant"@,
        ),
    decreases count,
{
    reveal(Seq::filter);
    if count > 0 {
        law_what_was_said_is_remembered(messages, count - 1);
        assert(messages.take(count).drop_last() =~= messages.take(count - 1));
    }
}

/// What the user said comes from the user's side and what the assistant said from
/// the assistant's, in the same words.
pub proof fn law_words_keep_their_side(message: Message, stored: CortexChatMessage)
    requires
        says(message, stored),
    ensures
        stored.role@ == "user"@ ==> (message matches Message::User { content } && content@.len() == 1
            && content@[0] is Text && content@[0]->Text_0@ == stored.content@),
        stored.role@ == "assistant"@ ==> (message matches Message::Assistant { content, .. }
            && content@.len() == 1 && content@[0] is Text && content@[0]->Text_0@
            == stored.content@),
{
    reveal_strlit("user");
    reveal_strlit("assistant");
    assert("user"@.len() == 4 && "assistant"@.len() == 9);
}

/// An answer is stored in its own words; a failure is stored with what went wrong,
/// and a timeout with how long it took.
pub proof fn law_answer_is_stored(response: String, error: String, timeout_secs: u64)
    ensures
        stored_answer(ChatOutcome::Answered(response), timeout_secs) == response@,
        stored_answer(ChatOutcome::Failed(error), timeout_secs).skip(19) == error@,
        stored_answer(ChatOutcome::Failed(error), timeout_secs).take(19) == "Cortex chat error: "@,
        stored_answer(ChatOutcome::TimedOut, timeout_secs) == "Cortex chat timed out after "@
            + decimal(timeout_secs as int) + "s while waiting for a model response."@,
{
    reveal_strlit("Cortex chat error: ");
    let told = stored_answer(ChatOutcome::Failed(error), timeout_secs);
    assert("Cortex chat error: "@.len() == 19);
    assert(told.skip(19) =~= error@);
    assert(told.take(19) =~= "Cortex chat error: "@);
}

proof fn lemma_items_text(items: Seq<TimelineItem>, count: int) -> (texts: Seq<Seq<char>>)
    requires
        0 <= count <= items.len(),
    ensures
        texts.len() == count,
        forall|i: int| 0 <= i < count ==> #[trigger] texts[i] == item_text(items[i]),
        items_text(items, count) == joined(texts, Seq::empty()),
    decreases count,
{
    if count <= 0 {
        Seq::empty()
    } else {
        let before = lemma_items_text(items, count - 1);
        let texts = before.push(item_text(items[count - 1]));
        assert(texts.drop_last() =~= before);
        assert(items_text(items, count) =~= joined(texts, Seq::empty()));
        texts
    }
}

/// The transcript of a channel tells every message with who said it, and every
/// branch and every worker that came to an end with what came of it, in order. The
/// texts are given back.
pub proof fn law_transcript_tells_every_item(items: Seq<TimelineItem>) -> (texts: Seq<Seq<char>>)
    ensures
        texts.len() == items.len(),
        items_text(items, items.len() as int) == joined(texts, Seq::empty()),
        forall|i: int|
            0 <= i < items.len() ==> {
                let item = #[trigger] items[i];
                &&& item matches TimelineItem::Message { role, sender_name, content } ==> texts[i]
                    == "**"@ + (if sender_name is Some {
                    sender_name->0@
                } else {
                    role@
                }) + "**: "@ + content@ + "\n\n"@
                &&& item matches TimelineItem::BranchRun { description, conclusion } ==> texts[i]
                    == if conclusion is Some {
                    "*[Branch: "@ + description@ + "]*: "@ + conclusion->0@ + "\n\n"@
                } else {
                    Seq::empty()
                }
                &&& item matches TimelineItem::WorkerRun { task, result } ==> texts[i] == if result
                    is Some {
                    "*[Worker: "@ + task@ + "]*: "@ + result->0@ + "\n\n"@
                } else {
                    Seq::empty()
                }
            },
{
    let texts = lemma_items_text(items, items.len() as int);
    assert forall|i: int| 0 <= i < items.len() implies texts[i] == item_text(#[trigger] items[i]) by {}
    texts
}

/// A stored message is shown with all that is stored of it.
pub proof fn law_message_is_shown_whole(message: CortexChatMessage, row: ChatMessageRow)
    requires
        is_message_of(message, row),
    ensures
        message.id == row.id,
        message.thread_id == row.thread_id,
        message.role == row.role,
        message.content == row.content,
        message.channel_context == row.channel_context,
        message.created_at@ == utc_rfc3339(
            row.created_at.seconds as int,
            row.created_at.nanos as int,
        ),
{
}

/// What is stored of an answer is what the admin is told, as done just where there
/// is an answer.
pub proof fn law_admin_is_told_the_answer(
    outcome: ChatOutcome,
    timeout_secs: u64,
    result: (String, CortexChatEvent),
)
    requires
        call_ensures(finish_chat, (outcome, timeout_secs), result),
    ensures
        outcome matches ChatOutcome::Answered(response) ==> result.0@ == response@ && (
        result.1 matches CortexChatEvent::Done { full_text } && full_text@ == response@),
        !(outcome is Answered) ==> (result.1 matches CortexChatEvent::Error { message } && message@
            == result.0@),
        outcome matches ChatOutcome::Failed(error) ==> result.0@ == "Cortex chat error: "@ + error@,
{
}

/// The history of a chat has all that was said before the last message, in order and
/// from its own side.
pub proof fn law_chat_history_is_what_was_said(
    chat_messages: &Vec<CortexChatMessage>,
    history: Vec<Message>,
)
    requires
        call_ensures(chat_history, (chat_messages,), history),
        chat_messages@.len() > 0,
        forall|i: int|
            0 <= i < chat_messages@.len() ==> (#[trigger] chat_messages@[i]).role@ == "user"@
                || chat_messages@[i].role@ == "assistant"@,
    ensures
        history@.len() == chat_messages@.len() - 1,
        forall|i: int|
            0 <= i < history@.len() ==> {
                &&& chat_messages@[i].role@ == "user"@ ==> (#[trigger] history@[i] matches
                    Message::User { content } && content@.len() == 1 && content@[0] is Text
                    && content@[0]->Text_0@ == chat_messages@[i].content@)
                &&& chat_messages@[i].role@ == "assistant"@ ==> (history@[i] matches
                    Message::Assistant { content, .. } && content@.len() == 1 && content@[0] is Text
                    && content@[0]->Text_0@ == chat_messages@[i].content@)
            },
{
    let count = chat_messages@.len() - 1;
    lemma_all_spoken(chat_messages@, count);
    assert forall|i: int| 0 <= i < history@.len() implies {
        &&& chat_messages@[i].role@ == "user"@ ==> (#[trigger] history@[i] matches Message::User {
            content,
        } && content@.len() == 1 && content@[0] is Text && content@[0]->Text_0@
            == chat_messages@[i].content@)
        &&& chat_messages@[i].role@ == "assistant"@ ==> (history@[i] matches Message::Assistant {
            content,
            ..
        } && content@.len() == 1 && content@[0] is Text && content@[0]->Text_0@
            == chat_messages@[i].content@)
    } by {
        assert(says(history@[i], spoken(chat_messages@, count)[i]));
        law_words_keep_their_side(history@[i], chat_messages@[i]);
    }
}

proof fn lemma_all_spoken(messages: Seq<CortexChatMessage>, count: int)
    requires
        0 <= count <= messages.len(),
        forall|i: int|
            0 <= i < messages.len() ==> (#[trigger] messages[i]).role@ == "user"@ || messages[i].role@
                == "assistant"@,
    ensures
        spoken(messages, count) == messages.take(count),
    decreases count,
{
    if count > 0 {
        lemma_all_spoken(messages, count - 1);
        assert(messages[count - 1].role@ == "user"@ || messages[count - 1].role@ == "assistant"@);
        assert(messages.take(count - 1).push(messages[count - 1]) =~= messages.take(count));
    } else {
        assert(messages.take(0) =~= Seq::<CortexChatMessage>::empty());
    }
}

} // verus!
