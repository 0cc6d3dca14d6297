//! Turns of a channel: what the model is given, and what becomes of its answer.

use crate::agent::channel::{Channel, MemoryPersistenceConfig};
use crate::agent::channel_events::RETRIGGER_RESULT_SUMMARY;
use crate::agent::channel_history::{
    batched_form, extract_message_id, extract_reply_from_tool_syntax, format_batched_user_message,
    format_user_message, is_bridge, message_display_name, message_id_of,
    pop_retrigger_bridge_message, tool_syntax_reply, without_bridge,
};
use crate::agent::channel_state::ChannelState;
use crate::agent::message::{assistant_text, is_assistant_text, Message, PromptError, UserContent};
use crate::assoc::member;
use crate::clock::{elapsed_seconds, seconds_between, Timestamp};
use crate::json::{copy_members, find_text, flag_of, text_of, JsonValue};
use crate::messages::{
    InboundMessage, MessageContent, Metadata, OutboundResponse, CHANNEL_NAME, MESSAGE_ID, SERVER_NAME,
};
use crate::text::{
    decimal, is_white_space, join, joined, law_blank_is_white_space,
    law_first_piece_ends_at_separator, law_joined_keeps_every_part,
    split, split_at, text_eq, trim, trimmed, u64_text, view_of, views,
};
use vstd::prelude::*;
use vstd::string::*;

verus! {

/// The text of a message: none where it brings only attachments.
pub open spec fn raw_text(content: MessageContent) -> Seq<char> {
    match content {
        MessageContent::Text(text) => text@,
        MessageContent::Media { text, .. } => match text {
            Some(value) => value@,
            None => Seq::empty(),
        },
        MessageContent::Interaction { .. } => content.form(),
    }
}

/// The text of a message.
pub fn raw_text_of(content: &MessageContent) -> (text: String)
    ensures
        text@ == raw_text(*content),
{
    match content {
        MessageContent::Text(text) => text.clone(),
        MessageContent::Media { text, .. } => match text {
            Some(value) => value.clone(),
            None => String::new(),
        },
        MessageContent::Interaction { .. } => content.display(),
    }
}

/// A line for the log of the conversation.
#[derive(Debug, Clone)]
pub struct UserLog {
    pub conversation_id: String,
    pub sender_name: String,
    pub sender_id: String,
    pub text: String,
    /// What came with the message.
    pub metadata: Metadata,
}

/// Whether a line is the one that a message leaves.
pub open spec fn is_user_log(log: UserLog, message: InboundMessage) -> bool {
    &&& log.conversation_id == message.conversation_id
    &&& log.sender_name@ == match text_of(member(message.metadata@, "sender_display_name"@)) {
        Some(name) => name,
        None => message.sender_id@,
    }
    &&& log.sender_id == message.sender_id
    &&& log.text@ == raw_text(message.content)
    &&& log.metadata@ == message.metadata@
}

fn user_log(message: &InboundMessage) -> (log: UserLog)
    ensures
        is_user_log(log, *message),
{
    let sender_name = match find_text(&message.metadata, "sender_display_name") {
        Some(name) => name.to_owned(),
        None => message.sender_id.clone(),
    };
    UserLog {
        conversation_id: message.conversation_id.clone(),
        sender_name,
        sender_id: message.sender_id.clone(),
        text: raw_text_of(&message.content),
        metadata: copy_members(&message.metadata),
    }
}

/// What a prompt is to say of a conversation.
#[derive(Debug)]
pub struct ContextRequest<'a> {
    pub platform: &'a str,
    pub server_name: Option<&'a str>,
    pub channel_name: Option<&'a str>,
}

/// What a message from the user, or a retrigger, gives the model.
#[derive(Debug, Clone)]
pub struct MessageTurn {
    pub user_text: String,
    /// Where the message is to be logged.
    pub log: Option<UserLog>,
    pub is_retrigger: bool,
}

/// A message of a batch as the model reads it.
#[derive(Debug, Clone)]
pub struct BatchEntry {
    /// Which message of the batch it is.
    pub position: usize,
    pub log: UserLog,
    pub text: String,
}

/// How long ago a message came, in words.
pub open spec fn relative_form(secs: int) -> Seq<char> {
    if secs < 1 {
        "just now"@
    } else if secs < 60 {
        decimal(secs) + "s ago"@
    } else {
        decimal(secs / 60) + "m ago"@
    }
}

/// How long ago a message came, in words.
pub fn relative_text(secs: u64) -> (text: String)
    ensures
        text@ == relative_form(secs as int),
{
    if secs < 1 {
        "just now".to_owned()
    } else if secs < 60 {
        u64_text(secs).concat("s ago")
    } else {
        u64_text(secs / 60).concat("m ago")
    }
}

/// The times that messages of a batch came at.
pub open spec fn times_valid(messages: Seq<InboundMessage>) -> bool {
    forall|i: int| 0 <= i < messages.len() ==> (#[trigger] messages[i]).timestamp.valid()
}

/// Whether a time is the earliest of a batch.
pub open spec fn is_earliest(messages: Seq<InboundMessage>, time: Timestamp) -> bool {
    &&& forall|i: int|
        0 <= i < messages.len() ==> time.not_after((#[trigger] messages[i]).timestamp)
    &&& exists|i: int| 0 <= i < messages.len() && (#[trigger] messages[i]).timestamp == time
}

/// Whether a time is the latest of a batch.
pub open spec fn is_latest(messages: Seq<InboundMessage>, time: Timestamp) -> bool {
    &&& forall|i: int|
        0 <= i < messages.len() ==> (#[trigger] messages[i]).timestamp.not_after(time)
    &&& exists|i: int| 0 <= i < messages.len() && (#[trigger] messages[i]).timestamp == time
}

/// The earliest and the latest time of a batch.
pub fn batch_span(messages: &Vec<InboundMessage>) -> (span: (Timestamp, Timestamp))
    requires
        messages@.len() > 0,
    ensures
        is_earliest(messages@, span.0),
        is_latest(messages@, span.1),
        span.0.not_after(span.1),
{
    let mut start: Timestamp = messages[0].timestamp;
    let mut tail: Timestamp = messages[0].timestamp;
    let ghost mut first: int = 0;
    let ghost mut last: int = 0;
    let mut i: usize = 1;
    while i < messages.len()
        invariant
            1 <= i <= messages.len(),
            0 <= first < i,
            0 <= last < i,
            messages@[first].timestamp == start,
            messages@[last].timestamp == tail,
            forall|k: int|
                0 <= k < i ==> start.not_after((#[trigger] messages@[k]).timestamp)
                    && messages@[k].timestamp.not_after(tail),
        decreases messages.len() - i,
    {
        let time: Timestamp = messages[i].timestamp;
        if start.is_after(&time) {
            start = time;
            proof {
                first = i as int;
            }
        }
        if time.is_after(&tail) {
            tail = time;
            proof {
                last = i as int;
            }
        }
        i = i + 1;
    }
    (start, tail)
}

/// The senders of a batch.
pub open spec fn senders(messages: Seq<InboundMessage>) -> Set<Seq<char>> {
    messages.map_values(|message: InboundMessage| message.sender_id@).to_set()
}

/// How many senders a batch has.
pub fn unique_sender_count(messages: &Vec<InboundMessage>) -> (count: usize)
    ensures
        count == senders(messages@).len(),
{
    let ghost id_of = |message: InboundMessage| message.sender_id@;
    let mut distinct: Vec<&str> = Vec::new();
    let ghost mut seen: Set<Seq<char>> = Set::empty();
    assert(messages@.take(0).map_values(id_of).to_set() =~= seen);
    let mut i: usize = 0;
    while i < messages.len()
        invariant
            i <= messages.len(),
            id_of == |message: InboundMessage| message.sender_id@,
            seen == messages@.take(i as int).map_values(id_of).to_set(),
            seen.finite(),
            seen.len() == distinct@.len(),
            distinct@.len() <= i,
            forall|k: int| 0 <= k < distinct@.len() ==> seen.contains((#[trigger] distinct@[k])@),
            forall|id: Seq<char>|
                seen.contains(id) ==> exists|k: int|
                    0 <= k < distinct@.len() && (#[trigger] distinct@[k])@ == id,
        decreases messages.len() - i,
    {
        let id = messages[i].sender_id.as_str();
        let mut known = false;
        let mut k: usize = 0;
        while k < distinct.len()
            invariant
                k <= distinct.len(),
                known == exists|j: int| 0 <= j < k && (#[trigger] distinct@[j])@ == id@,
            decreases distinct.len() - k,
        {
            if text_eq(distinct[k], id) {
                assert(distinct@[k as int]@ == id@);
                known = true;
            }
            k = k + 1;
        }
        let ghost before = distinct@;
        let ghost seen_before = seen;
        if !known {
            distinct.push(id);
        }
        proof {
            let shorter = messages@.take(i as int).map_values(id_of);
            let longer = messages@.take(i + 1).map_values(id_of);
            assert(longer =~= shorter.push(id@));
            assert(longer.to_set() =~= shorter.to_set().insert(id@)) by {
                assert forall|x: Seq<char>| longer.to_set().contains(x)
                    == shorter.to_set().insert(id@).contains(x) by {
                    if shorter.contains(x) {
                        let j = choose|j: int| 0 <= j < shorter.len() && shorter[j] == x;
                        assert(longer[j] == x);
                    }
                    if x == id@ {
                        assert(longer[shorter.len() as int] == x);
                    }
                    if longer.contains(x) {
                        let j = choose|j: int| 0 <= j < longer.len() && longer[j] == x;
                        if j < shorter.len() {
                            assert(shorter[j] == x);
                        }
                    }
                }
            }
            seen = longer.to_set();
            assert(known == seen_before.contains(id@));
            if known {
                assert(seen =~= seen_before);
            } else {
                assert(distinct@ == before.push(id));
                assert forall|x: Seq<char>| seen.contains(x) implies exists|j: int|
                    0 <= j < distinct@.len() && (#[trigger] distinct@[j])@ == x by {
                    if x == id@ {
                        assert(distinct@[before.len() as int]@ == x);
                    } else {
                        let j = choose|j: int|
                            0 <= j < before.len() && (#[trigger] before[j])@ == x;
                        assert(distinct@[j]@ == x);
                    }
                }
                assert forall|j: int| 0 <= j < distinct@.len() implies seen.contains(
                    (#[trigger] distinct@[j])@,
                ) by {
                    if j < before.len() {
                        assert(distinct@[j] == before[j]);
                    }
                }
            }
        }
        i = i + 1;
    }
    assert(messages@.take(messages@.len() as int) =~= messages@);
    distinct.len()
}

/// The positions of the messages of a batch, among the first ones, that do not
/// come from the system.
pub open spec fn user_positions(messages: Seq<InboundMessage>, count: int) -> Seq<int>
    decreases count,
{
    if count <= 0 {
        Seq::empty()
    } else if messages[count - 1].source@ != "system"@ {
        user_positions(messages, count - 1).push(count - 1)
    } else {
        user_positions(messages, count - 1)
    }
}

/// Whether an entry is the one of a message of a batch.
pub open spec fn is_batch_entry(
    entry: BatchEntry,
    messages: Seq<InboundMessage>,
    timestamps: Seq<String>,
    tail: Timestamp,
    position: int,
) -> bool {
    let message = messages[position];
    &&& entry.position == position
    &&& is_user_log(entry.log, message)
    &&& entry.text@ == batched_form(
        message.display_name(),
        timestamps[position]@,
        relative_form(elapsed_seconds(message.timestamp, tail)),
        raw_text(message.content),
    )
}

/// Formats the messages of a batch with their senders and times, those of the
/// system left out. `timestamps` are the times of the messages as they are told.
pub fn batch_entries(messages: &Vec<InboundMessage>, timestamps: &Vec<String>) -> (entries: Vec<BatchEntry>)
    requires
        messages@.len() > 0,
        timestamps@.len() == messages@.len(),
        times_valid(messages@),
    ensures
        exists|tail: Timestamp| #[trigger]
            is_latest(messages@, tail) && entries@.len() == user_positions(
                messages@,
                messages@.len() as int,
            ).len() && forall|i: int|
                0 <= i < entries@.len() ==> is_batch_entry(
                    #[trigger] entries@[i],
                    messages@,
                    timestamps@,
                    tail,
                    user_positions(messages@, messages@.len() as int)[i],
                ),
{
    let (_start, tail) = batch_span(messages);
    proof {
        let latest = choose|i: int| 0 <= i < messages@.len() && messages@[i].timestamp == tail;
        assert(messages@[latest].timestamp.valid());
    }
    let mut entries: Vec<BatchEntry> = Vec::new();
    let mut i: usize = 0;
    while i < messages.len()
        invariant
            i <= messages.len(),
            timestamps@.len() == messages@.len(),
            times_valid(messages@),
            tail.valid(),
            is_latest(messages@, tail),
            entries@.len() == user_positions(messages@, i as int).len(),
            forall|k: int|
                0 <= k < entries@.len() ==> is_batch_entry(
                    #[trigger] entries@[k],
                    messages@,
                    timestamps@,
                    tail,
                    user_positions(messages@, i as int)[k],
                ),
        decreases messages.len() - i,
    {
        let message = &messages[i];
        if !text_eq(message.source.as_str(), "system") {
            let secs: u64 = seconds_between(message.timestamp, tail);
            let raw = raw_text_of(&message.content);
            let text = format_batched_user_message(
                message_display_name(message),
                timestamps[i].as_str(),
                relative_text(secs).as_str(),
                raw.as_str(),
            );
            entries.push(BatchEntry { position: i, log: user_log(message), text });
        }
        i = i + 1;
    }
    entries
}

/// The conversation of the last message of a batch that does not come from the
/// system; none where there is no such message.
pub open spec fn batch_conversation(messages: Seq<InboundMessage>) -> Seq<char> {
    let positions = user_positions(messages, messages.len() as int);
    if positions.len() == 0 {
        Seq::empty()
    } else {
        messages[positions.last()].conversation_id@
    }
}

/// The conversation that a batch belongs to.
pub fn batch_conversation_id(messages: &Vec<InboundMessage>) -> (id: String)
    ensures
        id@ == batch_conversation(messages@),
{
    let mut id = String::new();
    let mut i: usize = 0;
    while i < messages.len()
        invariant
            i <= messages.len(),
            id@ == ({
                let positions = user_positions(messages@, i as int);
                if positions.len() == 0 {
                    Seq::empty()
                } else {
                    messages@[positions.last()].conversation_id@
                }
            }),
        decreases messages.len() - i,
    {
        if !text_eq(messages[i].source.as_str(), "system") {
            id = messages[i].conversation_id.clone();
        }
        i = i + 1;
    }
    id
}

/// What the model is given of the first messages of a batch: what was downloaded
/// for each, then its text.
pub open spec fn batch_contents(
    entries: Seq<BatchEntry>,
    downloads: Seq<Vec<UserContent>>,
    count: int,
) -> Seq<UserContent>
    decreases count,
{
    if count <= 0 {
        Seq::empty()
    } else {
        batch_contents(entries, downloads, count - 1) + downloads[count - 1]@ + seq![
            UserContent::Text(entries[count - 1].text),
        ]
    }
}

/// Puts the messages of a batch and what was downloaded for each in their order.
pub fn collect_batch(entries: &Vec<BatchEntry>, downloads: Vec<Vec<UserContent>>) -> (contents: Vec<UserContent>)
    requires
        downloads@.len() == entries@.len(),
    ensures
        contents@ == batch_contents(entries@, downloads@, entries@.len() as int),
{
    let ghost all = downloads@;
    let mut rest = downloads;
    let mut contents: Vec<UserContent> = Vec::new();
    let mut i: usize = 0;
    assert(rest@ =~= all.skip(0));
    while i < entries.len()
        invariant
            i <= entries.len(),
            all.len() == entries@.len(),
            rest@ == all.skip(i as int),
            contents@ == batch_contents(entries@, all, i as int),
        decreases entries.len() - i,
    {
        let mut part = rest.remove(0);
        assert(part == all[i as int]);
        contents.append(&mut part);
        contents.push(UserContent::Text(entries[i].text.clone()));
        assert(contents@ =~= batch_contents(entries@, all, i + 1));
        assert(rest@ =~= all.skip(i + 1));
        i = i + 1;
    }
    contents
}

/// The texts among the first parts.
pub open spec fn text_parts(contents: Seq<UserContent>, count: int) -> Seq<Seq<char>>
    decreases count,
{
    if count <= 0 {
        Seq::empty()
    } else {
        match contents[count - 1] {
            UserContent::Text(text) => text_parts(contents, count - 1).push(text@),
            _ => text_parts(contents, count - 1),
        }
    }
}

/// What is no text among the first parts.
pub open spec fn attachment_parts(contents: Seq<UserContent>, count: int) -> Seq<UserContent>
    decreases count,
{
    if count <= 0 {
        Seq::empty()
    } else if contents[count - 1] is Text {
        attachment_parts(contents, count - 1)
    } else {
        attachment_parts(contents, count - 1).push(contents[count - 1])
    }
}

/// What the model reads of a batch.
pub open spec fn combined_form(message_count: int, texts: Seq<Seq<char>>) -> Seq<char> {
    "["@ + decimal(message_count) + " messages arrived rapidly in this channel]\n\n"@ + joined(
        texts,
        "\n"@,
    )
}

/// Puts a batch into one text, and what is no text beside it.
pub fn combine_batch(message_count: usize, contents: Vec<UserContent>) -> (combined: (
    String,
    Vec<UserContent>,
))
    ensures
        combined.0@ == combined_form(
            message_count as int,
            text_parts(contents@, contents@.len() as int),
        ),
        combined.1@ == attachment_parts(contents@, contents@.len() as int),
{
    let ghost all = contents@;
    let mut rest = contents;
    let mut texts: Vec<String> = Vec::new();
    let mut attachments: Vec<UserContent> = Vec::new();
    let ghost mut done: int = 0;
    assert(rest@ =~= all.skip(0));
    assert(views(texts@) =~= text_parts(all, 0));
    while rest.len() > 0
        invariant
            0 <= done <= all.len(),
            rest@ == all.skip(done),
            views(texts@) == text_parts(all, done),
            attachments@ == attachment_parts(all, done),
        decreases rest@.len(),
    {
        let content = rest.remove(0);
        assert(content == all[done]);
        assert(rest@ =~= all.skip(done + 1));
        match content {
            UserContent::Text(text) => {
                let ghost before = texts@;
                texts.push(text);
                assert(views(texts@) =~= views(before).push(text@));
            },
            other => {
                attachments.push(other);
            },
        }
        proof {
            done = done + 1;
        }
    }
    assert(done == all.len());
    let text = "[".to_owned().concat(u64_text(message_count as u64).as_str()).concat(
        " messages arrived rapidly in this channel]\n\n",
    ).concat(join(&texts, "\n").as_str());
    (text, attachments)
}

/// The identifier of the last message, among the first ones, that the platform
/// identifies.
pub open spec fn last_identified(messages: Seq<InboundMessage>, count: int) -> Option<Seq<char>>
    decreases count,
{
    if count <= 0 {
        None
    } else {
        match message_id_of(member(messages[count - 1].metadata@, MESSAGE_ID@)) {
            Some(id) => Some(id),
            None => last_identified(messages, count - 1),
        }
    }
}

/// What stands in for the model while work runs in the background.
pub const RETRIGGER_BRIDGE: &'static str = "[acknowledged — working on it in background]";

/// How a turn is run.
#[derive(Debug, Clone, Copy, PartialEq, Eq, Structural)]
pub struct TurnPlan {
    pub max_turns: usize,
    /// Whether text without an explicit reply may be sent.
    pub allow_direct_reply: bool,
    /// The length of the history that the turn starts from.
    pub history_len_before: usize,
}

/// The history that a turn starts from: with its attachments, and for a
/// retrigger with something between two messages from the user's side.
pub open spec fn is_turn_history(
    before: Seq<Message>,
    attachments: Seq<UserContent>,
    is_retrigger: bool,
    after: Seq<Message>,
) -> bool {
    let shown: int = if attachments.len() > 0 {
        before.len() as int + 1
    } else {
        before.len() as int
    };
    let ends_with_user = attachments.len() > 0 || before.len() > 0 && before.last() is User;
    &&& after.len() == shown + if is_retrigger && ends_with_user {
        1int
    } else {
        0
    }
    &&& after.take(before.len() as int) == before
    &&& attachments.len() > 0 ==> after[before.len() as int] is User && after[before.len() as int]->User_content@
        == attachments
    &&& is_retrigger && ends_with_user ==> is_assistant_text(after.last(), RETRIGGER_BRIDGE@)
}

/// How often the model may be told to use its tools rather than write of them.
pub const TOOL_SYNTAX_RECOVERY_MAX_ATTEMPTS: usize = 2;

/// Whether the model is told to use its tools: it answered with text that may not
/// be shown, and was not told too often yet.
pub fn should_recover(result: &Result<String, PromptError>, blocked: bool, attempts: usize) -> (recover: bool)
    ensures
        recover == (*result is Ok && blocked && attempts < TOOL_SYNTAX_RECOVERY_MAX_ATTEMPTS),
{
    match result {
        Ok(_) => blocked && attempts < TOOL_SYNTAX_RECOVERY_MAX_ATTEMPTS,
        Err(_) => false,
    }
}

/// What becomes of an answer.
#[derive(Debug, Clone)]
pub enum Fallback {
    /// There is nothing to send.
    Silent,
    /// The text looks like a tool call.
    Blocked,
    /// The text may hold a secret.
    Leaked,
    /// The adapter only takes explicit replies.
    Suppressed,
    /// The text is sent, mentions of the platform normalized, and logged under
    /// the agent's name where that is wanted.
    Send { text: String, source: String, named: bool },
}

/// The record of background work that was not relayed.
pub open spec fn unrelayed_record(summary: Seq<char>, replied: bool) -> Seq<char> {
    if replied {
        summary
    } else {
        "[background work completed but relay to user failed — include this in your next response]\n"@
            + summary
    }
}

/// The summary that a retrigger carries.
pub open spec fn carried_summary(message: InboundMessage) -> Seq<char> {
    match text_of(member(message.metadata@, RETRIGGER_RESULT_SUMMARY@)) {
        Some(summary) => summary,
        None => "[background work completed]"@,
    }
}

/// What a turn leaves of a history. A retrigger whose results were not relayed in
/// so many words leaves a record of them in place of the stand-in message.
pub open spec fn is_history_after_message(
    before: Seq<Message>,
    message: InboundMessage,
    replied: bool,
    preserved: bool,
    after: Seq<Message>,
) -> bool {
    if message.source@ != "system"@ || replied && preserved {
        after == before
    } else {
        &&& after.len() == without_bridge(before).len() + 1
        &&& after.drop_last() == without_bridge(before)
        &&& is_assistant_text(after.last(), unrelayed_record(carried_summary(message), replied))
    }
}

impl Channel {
    /// Where the conversation comes from, once a message was seen.
    pub open spec fn tracks(before: Channel, message: InboundMessage, after: Channel) -> bool {
        after == (Channel {
            conversation_id: if before.conversation_id is None {
                Some(message.conversation_id)
            } else {
                before.conversation_id
            },
            source_adapter: if before.source_adapter is None && message.source@ != "system"@ {
                Some(message.source)
            } else {
                before.source_adapter
            },
            ..before
        })
    }

    /// Remembers where the conversation comes from.
    pub fn track(&mut self, message: &InboundMessage)
        ensures
            Channel::tracks(*old(self), *message, *final(self)),
    {
        if self.conversation_id.is_none() {
            self.conversation_id = Some(message.conversation_id.clone());
        }
        if self.source_adapter.is_none() && !text_eq(message.source.as_str(), "system") {
            self.source_adapter = Some(message.source.clone());
        }
    }

    /// What to render of the conversation, where that was not done yet.
    pub fn context_request<'a>(&self, message: &'a InboundMessage) -> (request: Option<ContextRequest<'a>>)
        ensures
            match request {
                None => self.conversation_context is Some,
                Some(wanted) => {
                    &&& self.conversation_context is None
                    &&& wanted.platform@ == message.source@
                    &&& match wanted.server_name {
                        Some(name) => text_of(member(message.metadata@, SERVER_NAME@)) == Some(name@),
                        None => text_of(member(message.metadata@, SERVER_NAME@)) is None,
                    }
                    &&& match wanted.channel_name {
                        Some(name) => text_of(member(message.metadata@, CHANNEL_NAME@)) == Some(
                            name@,
                        ),
                        None => text_of(member(message.metadata@, CHANNEL_NAME@)) is None,
                    }
                },
            },
    {
        if self.conversation_context.is_some() {
            return None;
        }
        Some(
            ContextRequest {
                platform: message.source.as_str(),
                server_name: find_text(&message.metadata, SERVER_NAME),
                channel_name: find_text(&message.metadata, CHANNEL_NAME),
            },
        )
    }

    /// Starts on a message: what the model is given of it, and what is logged. A
    /// message of the system itself is a retrigger and is not logged.
    pub fn begin_message(&mut self, message: &InboundMessage, timestamp_text: &str) -> (turn: MessageTurn)
        ensures
            Channel::tracks(*old(self), *message, *final(self)),
            turn.user_text@ == message.formatted(raw_text(message.content), timestamp_text@),
            turn.is_retrigger == (message.source@ == "system"@),
            match turn.log {
                Some(log) => !turn.is_retrigger && is_user_log(log, *message),
                None => turn.is_retrigger,
            },
    {
        self.track(message);
        let raw = raw_text_of(&message.content);
        let user_text = format_user_message(raw.as_str(), message, timestamp_text);
        let is_retrigger = text_eq(message.source.as_str(), "system");
        let log = if is_retrigger {
            None
        } else {
            Some(user_log(message))
        };
        MessageTurn { user_text, log, is_retrigger }
    }

    /// Work spawned in the turn replies to a message.
    pub fn set_reply_target(&mut self, message: &InboundMessage)
        ensures
            view_of(final(self).state.reply_target_message_id) == message_id_of(
                member(message.metadata@, MESSAGE_ID@),
            ),
            *final(self) == (Channel {
                state: ChannelState {
                    reply_target_message_id: final(self).state.reply_target_message_id,
                    ..old(self).state
                },
                ..*old(self)
            }),
    {
        self.state.reply_target_message_id = extract_message_id(message);
    }

    /// Work spawned in the turn replies to the last message of a batch that can
    /// be replied to.
    pub fn set_batch_reply_target(&mut self, messages: &Vec<InboundMessage>)
        ensures
            view_of(final(self).state.reply_target_message_id) == last_identified(
                messages@,
                messages@.len() as int,
            ),
            *final(self) == (Channel {
                state: ChannelState {
                    reply_target_message_id: final(self).state.reply_target_message_id,
                    ..old(self).state
                },
                ..*old(self)
            }),
    {
        let mut target: Option<String> = None;
        let mut i: usize = messages.len();
        while i > 0 && target.is_none()
            invariant
                i <= messages.len(),
                last_identified(messages@, messages@.len() as int) == match view_of(target) {
                    Some(id) => Some(id),
                    None => last_identified(messages@, i as int),
                },
            decreases i,
        {
            i = i - 1;
            target = extract_message_id(&messages[i]);
        }
        self.state.reply_target_message_id = target;
    }

    /// Prepares the history for a turn.
    pub fn begin_turn(
        &mut self,
        attachments: Vec<UserContent>,
        is_retrigger: bool,
        max_turns: usize,
        retrigger_max_turns: usize,
    ) -> (plan: TurnPlan)
        ensures
            is_turn_history(
                old(self).state.history@,
                attachments@,
                is_retrigger,
                final(self).state.history@,
            ),
            plan.max_turns == if is_retrigger {
                retrigger_max_turns
            } else {
                max_turns
            },
            plan.allow_direct_reply == (old(self).adapter() != Some("email"@)),
            plan.history_len_before == final(self).state.history@.len(),
            *final(self) == (Channel {
                state: ChannelState {
                    history: final(self).state.history,
                    ..old(self).state
                },
                ..*old(self)
            }),
    {
        let ghost before = self.state.history@;
        let allow_direct_reply = !self.suppress_plaintext_fallback();
        if attachments.len() > 0 {
            self.state.history.push(Message::User { content: attachments });
        }
        let ghost shown = self.state.history@;
        if is_retrigger {
            let count: usize = self.state.history.len();
            let needs_bridge = if count > 0 {
                match &self.state.history[count - 1] {
                    Message::User { .. } => true,
                    _ => false,
                }
            } else {
                false
            };
            if needs_bridge {
                self.state.history.push(assistant_text(RETRIGGER_BRIDGE.to_owned()));
            }
        }
        assert(self.state.history@.take(before.len() as int) =~= before);
        TurnPlan {
            max_turns: if is_retrigger {
                retrigger_max_turns
            } else {
                max_turns
            },
            allow_direct_reply,
            history_len_before: self.state.history.len(),
        }
    }

    /// What becomes of an answer. On a retrigger its text is held back, unless the
    /// model skipped: the user has not seen the results then, and the text is what
    /// they get of them.
    pub open spec fn fallback(
        self,
        result: Result<String, PromptError>,
        skipped: bool,
        replied: bool,
        is_retrigger: bool,
        blocked: bool,
        leaked: bool,
        decision: Fallback,
    ) -> bool {
        match result {
            Err(_) => decision is Silent,
            Ok(response) => {
                let text = trimmed(response@);
                if skipped != is_retrigger || !skipped && replied {
                    decision is Silent
                } else if is_retrigger && text.len() == 0 {
                    decision is Silent
                } else if blocked {
                    decision is Blocked
                } else if leaked {
                    decision is Leaked
                } else if self.adapter() == Some("email"@) {
                    decision is Suppressed
                } else {
                    decision matches Fallback::Send { text: sent, source, named } && sent@ == (
                    match tool_syntax_reply(text) {
                        Some(reply) => reply,
                        None => text,
                    }) && source@ == (match self.conversation_id {
                        Some(id) => split_at(id@, ':')[0],
                        None => "unknown"@,
                    }) && named == !is_retrigger
                }
            },
        }
    }

    /// Decides what becomes of an answer. `blocked` and `leaked` say whether its
    /// trimmed text looks like a tool call or may hold a secret.
    pub fn handle_agent_result(
        &self,
        result: &Result<String, PromptError>,
        skipped: bool,
        replied: bool,
        is_retrigger: bool,
        blocked: bool,
        leaked: bool,
    ) -> (decision: Fallback)
        ensures
            self.fallback(*result, skipped, replied, is_retrigger, blocked, leaked, decision),
    {
        match result {
            Ok(response) => {
                if skipped != is_retrigger {
                    return Fallback::Silent;
                }
                if !skipped && replied {
                    return Fallback::Silent;
                }
                let text = trim(response.as_str());
                if is_retrigger && text.is_empty() {
                    return Fallback::Silent;
                }
                if blocked {
                    return Fallback::Blocked;
                }
                if leaked {
                    return Fallback::Leaked;
                }
                if self.suppress_plaintext_fallback() {
                    return Fallback::Suppressed;
                }
                let source = match &self.conversation_id {
                    Some(id) => {
                        proof {
                            crate::text::lemma_split_at_non_empty(id@, ':');
                        }
                        split(id.as_str(), ':')[0].to_owned()
                    },
                    None => "unknown".to_owned(),
                };
                let sent = match extract_reply_from_tool_syntax(text) {
                    Some(reply) => reply,
                    None => text.to_owned(),
                };
                Fallback::Send { text: sent, source, named: !is_retrigger }
            },
            Err(_) => Fallback::Silent,
        }
    }

    /// A message was handled. Where it was a retrigger whose results were not
    /// relayed in so many words, they are recorded in the history; a message from
    /// the user counts towards the next memory persistence branch. Says whether
    /// one is due.
    pub fn finish_message(
        &mut self,
        message: &InboundMessage,
        replied: bool,
        retrigger_reply_preserved: bool,
        config: &MemoryPersistenceConfig,
    ) -> (spawn_memory_branch: bool)
        requires
            old(self).message_count < usize::MAX,
        ensures
            is_history_after_message(
                old(self).state.history@,
                *message,
                replied,
                retrigger_reply_preserved,
                final(self).state.history@,
            ),
            *final(self) == (Channel {
                state: ChannelState {
                    history: final(self).state.history,
                    ..old(self).state
                },
                retrigger_count: final(self).retrigger_count,
                message_count: final(self).message_count,
                ..*old(self)
            }),
            if message.source@ == "system"@ {
                &&& !spawn_memory_branch
                &&& final(self).retrigger_count == old(self).retrigger_count
                &&& final(self).message_count == old(self).message_count
            } else {
                &&& spawn_memory_branch == (config.enabled && config.message_interval != 0 && old(
                    self,
                ).message_count + 1 >= config.message_interval)
                &&& final(self).retrigger_count == 0
                &&& final(self).message_count == if spawn_memory_branch {
                    0
                } else {
                    old(self).message_count + 1
                }
            },
            forall|max: usize| old(self).within_cap(max) ==> #[trigger] final(self).within_cap(max),
    {
        if text_eq(message.source.as_str(), "system") {
            if !(replied && retrigger_reply_preserved) {
                let summary = match find_text(&message.metadata, RETRIGGER_RESULT_SUMMARY) {
                    Some(text) => text,
                    None => "[background work completed]",
                };
                let record = if replied {
                    summary.to_owned()
                } else {
                    "[background work completed but relay to user failed — include this in your next response]\n".to_owned().concat(
                    summary)
                };
                let _replaced = pop_retrigger_bridge_message(&mut self.state.history);
                let ghost cleared = self.state.history@;
                self.state.history.push(assistant_text(record));
                assert(self.state.history@.drop_last() =~= cleared);
            }
            return false;
        }
        self.retrigger_count = 0;
        self.message_count = self.message_count + 1;
        self.check_memory_persistence(config)
    }

    /// A batch was handled: the turn of the user starts the count of retriggers
    /// anew, and its messages count towards the next memory persistence branch.
    /// Says whether one is due.
    pub fn finish_batch(&mut self, message_count: usize, config: &MemoryPersistenceConfig) -> (spawn_memory_branch: bool)
        requires
            old(self).message_count + message_count <= usize::MAX,
        ensures
            spawn_memory_branch == (config.enabled && config.message_interval != 0 && old(
                self,
            ).message_count + message_count >= config.message_interval),
            *final(self) == (Channel {
                message_count: if spawn_memory_branch {
                    0
                } else {
                    (old(self).message_count + message_count) as usize
                },
                retrigger_count: 0,
                ..*old(self)
            }),
            forall|max: usize| old(self).within_cap(max) ==> #[trigger] final(self).within_cap(max),
    {
        self.retrigger_count = 0;
        self.message_count = self.message_count + message_count;
        self.check_memory_persistence(config)
    }
}

/// The response that a text is sent as: none where it is empty.
pub fn fallback_response(final_text: String) -> (response: Option<OutboundResponse>)
    ensures
        match response {
            Some(sent) => final_text@.len() > 0 && sent == OutboundResponse::Text(final_text),
            None => final_text@.len() == 0,
        },
{
    if final_text.as_str().is_empty() {
        None
    } else {
        Some(OutboundResponse::Text(final_text))
    }
}

/// The stand-in message is recognized as one, so that the record of background
/// work takes its place.
pub proof fn law_bridge_is_replaced(history: Seq<Message>, bridge: Message)
    requires
        is_assistant_text(bridge, RETRIGGER_BRIDGE@),
    ensures
        is_bridge(bridge),
        without_bridge(history.push(bridge)) == history,
{
    reveal_strlit("[acknowledged — working on it in background]");
    reveal_strlit("[acknowledged");
    let text = RETRIGGER_BRIDGE@;
    let mark = "[acknowledged"@;
    assert(text.subrange(0, mark.len() as int) =~= mark);
    assert(crate::text::occurs_at(mark, text, 0));
    assert(bridge->Assistant_content@[0] is Text);
    assert(history.push(bridge).drop_last() =~= history);
}

/// On a retrigger the text of an answer is held back unless the model skipped, and
/// the user then gets it, where it may be shown at all.
pub proof fn law_retrigger_text_needs_a_skip(
    channel: Channel,
    response: String,
    skipped: bool,
    replied: bool,
    blocked: bool,
    leaked: bool,
    decision: Fallback,
)
    requires
        channel.fallback(
            Ok::<String, PromptError>(response),
            skipped,
            replied,
            true,
            blocked,
            leaked,
            decision,
        ),
    ensures
        !skipped ==> decision is Silent,
        skipped && trimmed(response@).len() > 0 && !blocked && !leaked && channel.adapter() != Some(
            "email"@,
        ) ==> decision is Send,
{
}

/// However an answer looks, one that looks like a tool call or may hold a secret
/// is never sent.
pub proof fn law_blocked_text_is_never_sent(
    channel: Channel,
    result: Result<String, PromptError>,
    skipped: bool,
    replied: bool,
    is_retrigger: bool,
    blocked: bool,
    leaked: bool,
    decision: Fallback,
)
    requires
        channel.fallback(result, skipped, replied, is_retrigger, blocked, leaked, decision),
        blocked || leaked,
    ensures
        !(decision is Send),
{
}

/// The words that a message brings, whether they come alone or with media, are
/// what is logged and what the model reads at the end of the message.
pub proof fn law_words_are_kept(
    message: InboundMessage,
    words: String,
    timestamp_text: Seq<char>,
    log: UserLog,
    at: int,
)
    requires
        message.content == MessageContent::Text(words) || (message.content matches
            MessageContent::Media { text, .. } && text == Some(words)),
        0 <= at < words@.len(),
        !is_white_space(words@[at]),
        is_user_log(log, message),
    ensures
        log.text@ == words@,
        ({
            let told = message.formatted(raw_text(message.content), timestamp_text);
            &&& told.len() >= words@.len()
            &&& told.skip(told.len() - words@.len()) == words@
        }),
{
    law_blank_is_white_space(words@);
    let told = message.formatted(raw_text(message.content), timestamp_text);
    if message.source@ != "system"@ {
        let start = message.display_name() + (if flag_of(
            member(message.metadata@, "sender_is_bot"@),
        ) == Some(true) {
            " (bot)"@
        } else {
            ""@
        }) + message.reply_context() + " ["@ + timestamp_text + "]: "@;
        assert(told == start + words@);
    }
    assert(told.skip(told.len() - words@.len()) =~= words@);
}

/// A message with media is told and logged just as one with the same words and
/// nothing else.
pub proof fn law_media_is_told_like_text(
    plain: InboundMessage,
    media: InboundMessage,
    words: String,
    timestamp_text: Seq<char>,
    position: int,
    tail: Timestamp,
    timestamps: Seq<String>,
    messages: Seq<InboundMessage>,
    entry: BatchEntry,
)
    requires
        plain.content == MessageContent::Text(words),
        media.content matches MessageContent::Media { text, .. } && text == Some(words),
        plain == (InboundMessage { content: plain.content, ..media }),
        0 <= position < messages.len(),
        messages[position] == media,
        is_batch_entry(entry, messages, timestamps, tail, position),
    ensures
        media.formatted(raw_text(media.content), timestamp_text) == plain.formatted(
            raw_text(plain.content),
            timestamp_text,
        ),
        is_batch_entry(entry, messages.update(position, plain), timestamps, tail, position),
        entry.log.text@ == words@,
{
}

/// Where media come without words, or with nothing but white space, the model is
/// told so, and nothing but that is logged.
pub proof fn law_media_without_words(
    message: InboundMessage,
    timestamp_text: Seq<char>,
    log: UserLog,
    told: Seq<char>,
)
    requires
        message.source@ != "system"@,
        message.content matches MessageContent::Media { text, .. } && (text matches Some(words)
            ==> forall|i: int| 0 <= i < words@.len() ==> is_white_space(#[trigger] words@[i])),
        is_user_log(log, message),
        told == message.formatted(raw_text(message.content), timestamp_text),
    ensures
        ({
            let placeholder = "[attachment or empty message]"@;
            &&& told.len() >= placeholder.len()
            &&& told.skip(told.len() - placeholder.len()) == placeholder
        }),
        (message.content matches MessageContent::Media { text, .. } && text is None)
            ==> log.text@.len() == 0,
{
    law_blank_is_white_space(raw_text(message.content));
    let placeholder = "[attachment or empty message]"@;
    let start = message.display_name() + (if flag_of(member(message.metadata@, "sender_is_bot"@))
        == Some(true) {
        " (bot)"@
    } else {
        ""@
    }) + message.reply_context() + " ["@ + timestamp_text + "]: "@;
    assert(told == start + placeholder);
    assert(told.skip(told.len() - placeholder.len()) =~= placeholder);
}

/// A message is logged in its conversation, under its sender, with all that came
/// with it.
pub proof fn law_message_is_logged_whole(message: InboundMessage, log: UserLog, name: String)
    requires
        is_user_log(log, message),
    ensures
        log.conversation_id == message.conversation_id,
        log.sender_id == message.sender_id,
        log.metadata@ == message.metadata@,
        member(message.metadata@, "sender_display_name"@) == Some(JsonValue::Text(name))
            ==> log.sender_name@ == name@,
        member(message.metadata@, "sender_display_name"@) is None ==> log.sender_name@
            == message.sender_id@,
{
}

/// The time since a message is told as now, in seconds up to a minute, and in
/// whole minutes from then on.
pub proof fn law_time_since_is_told(minutes: int, seconds: int)
    requires
        0 <= minutes,
        0 <= seconds < 60,
    ensures
        relative_form(60 * minutes + seconds) == if minutes > 0 {
            decimal(minutes) + "m ago"@
        } else if seconds > 0 {
            decimal(seconds) + "s ago"@
        } else {
            "just now"@
        },
{
    assert((60 * minutes + seconds) / 60 == minutes);
}

/// Of a batch just the messages that do not come from the system are told, each
/// one once and in order.
pub proof fn law_batch_tells_every_user_message(messages: Seq<InboundMessage>, count: int)
    requires
        0 <= count <= messages.len(),
    ensures
        ({
            let positions = user_positions(messages, count);
            &&& forall|i: int|
                0 <= i < positions.len() ==> 0 <= #[trigger] positions[i] < count
                    && messages[positions[i]].source@ != "system"@
            &&& forall|i: int, j: int|
                0 <= i < j < positions.len() ==> #[trigger] positions[i] < #[trigger] positions[j]
            &&& forall|at: int|
                0 <= at < count && (#[trigger] messages[at]).source@ != "system"@
                    ==> positions.contains(at)
        }),
    decreases count,
{
    if count > 0 {
        law_batch_tells_every_user_message(messages, count - 1);
        let before = user_positions(messages, count - 1);
        let positions = user_positions(messages, count);
        assert forall|at: int| 0 <= at < count && (#[trigger] messages[at]).source@ != "system"@ implies
            positions.contains(at) by {
            if at < count - 1 {
                assert(before.contains(at));
                let i = choose|i: int| 0 <= i < before.len() && before[i] == at;
                assert(positions[i] == at);
            } else {
                assert(positions.last() == at);
            }
        }
    }
}

/// The conversation of a batch is that of the last message that does not come from
/// the system.
pub proof fn law_batch_conversation_is_the_last(messages: Seq<InboundMessage>, at: int)
    requires
        0 <= at < messages.len(),
        messages[at].source@ != "system"@,
        forall|later: int|
            at < later < messages.len() ==> (#[trigger] messages[later]).source@ == "system"@,
    ensures
        batch_conversation(messages) == messages[at].conversation_id@,
{
    let positions = user_positions(messages, messages.len() as int);
    law_batch_tells_every_user_message(messages, messages.len() as int);
    assert(positions.contains(at));
    let i = choose|i: int| 0 <= i < positions.len() && positions[i] == at;
    let last = positions[positions.len() - 1];
    assert(messages[last].source@ != "system"@);
    if i < positions.len() - 1 {
        assert(positions[i] < positions[positions.len() - 1]);
    }
}

/// What was downloaded for a message of a batch comes right before its text, and
/// nothing is left out. What comes behind it is given back.
pub proof fn law_batch_keeps_every_part(
    entries: Seq<BatchEntry>,
    downloads: Seq<Vec<UserContent>>,
    at: int,
    count: int,
) -> (behind: Seq<UserContent>)
    requires
        0 <= at < count,
    ensures
        batch_contents(entries, downloads, count) == batch_contents(entries, downloads, at)
            + downloads[at]@ + seq![UserContent::Text(entries[at].text)] + behind,
        batch_contents(entries, downloads, 0).len() == 0,
        at == count - 1 ==> behind.len() == 0,
    decreases count,
{
    if at == count - 1 {
        let whole = batch_contents(entries, downloads, count);
        assert(whole =~= whole + Seq::<UserContent>::empty());
        Seq::empty()
    } else {
        let middle = law_batch_keeps_every_part(entries, downloads, at, count - 1);
        let last = downloads[count - 1]@ + seq![UserContent::Text(entries[count - 1].text)];
        assert(batch_contents(entries, downloads, count) =~= batch_contents(entries, downloads, at)
            + downloads[at]@ + seq![UserContent::Text(entries[at].text)] + (middle + last));
        middle + last
    }
}

/// The texts of a batch, in order, are what is put into one text, and all that is
/// no text goes along beside it.
pub proof fn law_batch_is_parted(contents: Seq<UserContent>, count: int)
    requires
        0 <= count <= contents.len(),
    ensures
        text_parts(contents, count) == contents.take(count).filter(
            |content: UserContent| content is Text,
        ).map_values(|content: UserContent| content->Text_0@),
        attachment_parts(contents, count) == contents.take(count).filter(
            |content: UserContent| !(content is Text),
        ),
    decreases count,
{
    reveal(Seq::filter);
    let is_text = |content: UserContent| content is Text;
    let text = |content: UserContent| content->Text_0@;
    if count > 0 {
        law_batch_is_parted(contents, count - 1);
        assert(contents.take(count).drop_last() =~= contents.take(count - 1));
        let before = contents.take(count - 1).filter(is_text);
        if contents[count - 1] is Text {
            assert(before.push(contents[count - 1]).map_values(text) =~= before.map_values(
                text,
            ).push(text(contents[count - 1])));
        }
    } else {
        assert(contents.take(0).filter(is_text).map_values(text) =~= Seq::<Seq<char>>::empty());
    }
}

/// A batch tells how many messages came and then each text on lines of its own, in
/// order.
pub proof fn law_batch_text_tells_every_message(count: int, texts: Seq<Seq<char>>, at: int)
    requires
        0 <= at < texts.len(),
    ensures
        combined_form(count, texts) == "["@ + decimal(count)
            + " messages arrived rapidly in this channel]\n\n"@ + (joined(texts.take(at), "\n"@) + (
        if at == 0 {
            Seq::empty()
        } else {
            "\n"@
        }) + texts[at] + (if at == texts.len() - 1 {
            Seq::empty()
        } else {
            "\n"@ + joined(texts.skip(at + 1), "\n"@)
        })),
{
    law_joined_keeps_every_part(texts, "\n"@, at);
}

/// What a batch replies to is the last message, however far back, that the platform
/// identified.
pub proof fn law_last_identified_counts(
    messages: Seq<InboundMessage>,
    at: int,
    count: int,
    id: Seq<char>,
)
    requires
        0 <= at < count <= messages.len(),
        message_id_of(member(messages[at].metadata@, "message_id"@)) == Some(id),
        forall|later: int|
            at < later < count ==> message_id_of(
                member((#[trigger] messages[later]).metadata@, "message_id"@),
            ) is None,
    ensures
        last_identified(messages, count) == Some(id),
    decreases count,
{
    if at < count - 1 {
        assert(message_id_of(member(messages[count - 1].metadata@, "message_id"@)) is None);
        law_last_identified_counts(messages, at, count - 1, id);
    }
}

/// A turn starts from all of the history, with its attachments behind it as one
/// message of the user's side; a retrigger never from one that ends with the user's
/// side.
pub proof fn law_turn_starts_from_the_history(
    before: Seq<Message>,
    attachments: Seq<UserContent>,
    is_retrigger: bool,
    after: Seq<Message>,
)
    requires
        is_turn_history(before, attachments, is_retrigger, after),
    ensures
        before.len() <= after.len(),
        forall|i: int| 0 <= i < before.len() ==> #[trigger] after[i] == before[i],
        attachments.len() > 0 ==> before.len() < after.len() && (after[before.len() as int] matches
            Message::User { content } && content@ == attachments),
        is_retrigger && after.len() > 0 ==> after.last() is Assistant,
        !is_retrigger ==> after.len() == before.len() + if attachments.len() > 0 {
            1int
        } else {
            0
        },
        is_retrigger && attachments.len() == 0 && (before.len() == 0 || before.last() is Assistant)
            ==> after == before,
{
    assert forall|i: int| 0 <= i < before.len() implies #[trigger] after[i] == before[i] by {
        assert(after.take(before.len() as int)[i] == after[i]);
    }
    if is_retrigger && attachments.len() == 0 && (before.len() == 0 || before.last() is Assistant) {
        assert(after =~= before);
    }
}

/// The answer to a message is sent, without the white space around it, where the
/// model neither skipped nor replied, nothing speaks against the text and the
/// adapter takes it; it goes to the platform that the conversation is named after.
pub proof fn law_answer_is_sent(
    channel: Channel,
    response: String,
    decision: Fallback,
    platform: Seq<char>,
    rest: Seq<char>,
)
    requires
        channel.fallback(Ok::<String, PromptError>(response), false, false, false, false, false, decision),
        channel.adapter() != Some("email"@),
        tool_syntax_reply(trimmed(response@)) is None,
        !platform.contains(':'),
        channel.conversation_id matches Some(id) && id@ == platform + seq![':'] + rest,
    ensures
        decision matches Fallback::Send { text, source, named } && text@ == trimmed(response@)
            && source@ == platform && named,
{
    law_first_piece_ends_at_separator(platform, ':', rest);
}

/// A user who was replied to, and a failure, get no text beside it; neither does
/// one whom the model skipped.
pub proof fn law_nothing_is_sent_twice(
    channel: Channel,
    result: Result<String, PromptError>,
    skipped: bool,
    replied: bool,
    is_retrigger: bool,
    blocked: bool,
    leaked: bool,
    decision: Fallback,
)
    requires
        channel.fallback(result, skipped, replied, is_retrigger, blocked, leaked, decision),
        result is Err || replied && !skipped || skipped && !is_retrigger,
    ensures
        decision is Silent,
{
}

/// A turn for a message of the user's side leaves the history that it built. One
/// for results leaves, unless the reply to them was kept, a record at the end: the
/// summary that the results came with, which says so where nobody was told.
pub proof fn law_unrelayed_results_are_recorded(
    before: Seq<Message>,
    message: InboundMessage,
    replied: bool,
    preserved: bool,
    after: Seq<Message>,
    summary: String,
)
    requires
        is_history_after_message(before, message, replied, preserved, after),
        member(message.metadata@, "retrigger_result_summary"@) == Some(JsonValue::Text(summary)),
    ensures
        message.source@ != "system"@ ==> after == before,
        message.source@ == "system"@ && replied && preserved ==> after == before,
        message.source@ == "system"@ && !(replied && preserved) ==> after.len() > 0 && (
        after.last() matches Message::Assistant { content, .. } && content@.len() == 1
            && content@[0] is Text && {
            let text = content@[0]->Text_0@;
            &&& replied ==> text == summary@
            &&& !replied ==> text
                == "[background work completed but relay to user failed — include this in your next response]\n"@
                + summary@
        }),
        forall|i: int| 0 <= i < before.len() - 1 ==> #[trigger] after[i] == before[i],
        message.source@ == "system"@ && before.len() > 0 && before.last() is User
            ==> after[before.len() - 1] == before.last(),
{
    if message.source@ == "system"@ && !(replied && preserved) {
        let kept = without_bridge(before);
        assert forall|i: int| 0 <= i < kept.len() implies #[trigger] after[i] == kept[i] by {
            assert(after.drop_last()[i] == after[i]);
        }
        assert forall|i: int| 0 <= i < before.len() - 1 implies #[trigger] after[i] == before[i] by {
            assert(after[i] == kept[i]);
        }
        if before.len() > 0 && before.last() is User {
            assert(after[before.len() - 1] == kept[before.len() - 1]);
        }
    }
}

/// The first message of a channel gives it its conversation, and the first that
/// does not come from the system its adapter; no later one changes them.
pub proof fn law_conversation_is_set_once(
    before: Channel,
    message: InboundMessage,
    middle: Channel,
    later: InboundMessage,
    after: Channel,
)
    requires
        Channel::tracks(before, message, middle),
        Channel::tracks(middle, later, after),
    ensures
        before.conversation_id is None ==> after.conversation_id == Some(message.conversation_id),
        before.conversation_id is Some ==> after.conversation_id == before.conversation_id,
        before.source_adapter is Some ==> after.source_adapter == before.source_adapter,
        before.source_adapter is None && message.source@ != "system"@ ==> after.source_adapter == Some(
            message.source,
        ),
        before.source_adapter is None && message.source@ == "system"@ && later.source@ != "system"@
            ==> after.source_adapter == Some(later.source),
        before.source_adapter is None && message.source@ == "system"@ && later.source@ == "system"@
            ==> after.source_adapter is None,
        after.state == before.state,
        after.message_count == before.message_count,
        after.pending_results == before.pending_results,
{
}

/// The time of a message that comes before no other, and the time of one that comes
/// after no other, are where a batch begins and ends.
pub proof fn law_batch_spans_its_messages(
    messages: Seq<InboundMessage>,
    start: Timestamp,
    tail: Timestamp,
    first: int,
    last: int,
)
    requires
        is_earliest(messages, start),
        is_latest(messages, tail),
        0 <= first < messages.len(),
        0 <= last < messages.len(),
        forall|i: int|
            0 <= i < messages.len() ==> {
                let time = (#[trigger] messages[i]).timestamp;
                let from = messages[first].timestamp;
                let to = messages[last].timestamp;
                &&& from.seconds < time.seconds || from.seconds == time.seconds && from.nanos
                    <= time.nanos
                &&& time.seconds < to.seconds || time.seconds == to.seconds && time.nanos <= to.nanos
            },
    ensures
        start == messages[first].timestamp,
        tail == messages[last].timestamp,
{
    let i = choose|i: int| 0 <= i < messages.len() && (#[trigger] messages[i]).timestamp == start;
    let j = choose|j: int| 0 <= j < messages.len() && (#[trigger] messages[j]).timestamp == tail;
    assert(start.not_after(messages[first].timestamp));
    assert(messages[last].timestamp.not_after(tail));
}

/// A message of a batch is told with its sender, its time in both forms and its
/// words, and stands for its place in the batch.
pub proof fn law_batch_entry_tells_its_message(
    entry: BatchEntry,
    messages: Seq<InboundMessage>,
    timestamps: Seq<String>,
    tail: Timestamp,
    position: int,
    words: String,
    at: int,
)
    requires
        is_batch_entry(entry, messages, timestamps, tail, position),
        0 <= position < messages.len(),
        messages[position].content == MessageContent::Text(words),
        0 <= at < words@.len(),
        !is_white_space(words@[at]),
    ensures
        entry.position == position,
        entry.log.conversation_id == messages[position].conversation_id,
        entry.log.text@ == words@,
        entry.text@ == "["@ + messages[position].display_name() + "] ("@ + timestamps[position]@
            + "; "@ + relative_form(elapsed_seconds(messages[position].timestamp, tail)) + "): "@
            + words@,
{
    law_blank_is_white_space(words@);
}

/// Results that come without a summary are recorded as background work that was
/// completed.
pub proof fn law_work_without_summary_is_recorded(
    before: Seq<Message>,
    message: InboundMessage,
    after: Seq<Message>,
)
    requires
        is_history_after_message(before, message, true, false, after),
        message.source@ == "system"@,
        member(message.metadata@, "retrigger_result_summary"@) is None,
    ensures
        after.len() > 0,
        after.last() matches Message::Assistant { content, .. } && content@.len() == 1
            && content@[0] is Text && content@[0]->Text_0@ == "[background work completed]"@,
{
}

/// The model is told to use its tools where its answer may not be shown, twice at
/// the most; an answer that may be shown, and a failure, stand.
pub proof fn law_recovery_is_bounded(
    result: &Result<String, PromptError>,
    blocked: bool,
    attempts: usize,
    recover: bool,
)
    requires
        call_ensures(should_recover, (result, blocked, attempts), recover),
    ensures
        recover ==> blocked && attempts < 2 && *result is Ok,
        blocked && *result is Ok && attempts < 2 ==> recover,
{
}

/// A text that is not empty is sent just as it is, and an empty one is not sent.
pub proof fn law_text_is_sent_as_it_is(final_text: String, response: Option<OutboundResponse>)
    requires
        call_ensures(fallback_response, (final_text,), response),
    ensures
        final_text@.len() > 0 ==> response == Some(OutboundResponse::Text(final_text)),
        final_text@.len() == 0 ==> response is None,
{
}

} // verus!
