//! Messages to and from messaging platforms.

use crate::clock::Timestamp;
use crate::ids::{AgentId, BranchId, WorkerId};
use crate::json::JsonValue;
use crate::text::{is_prefix, strip_prefix, text_eq, trim, trimmed, views};
use vstd::prelude::*;
use vstd::string::*;

verus! {

/// Server, workspace or chat group name.
pub const SERVER_NAME: &'static str = "server_name";

/// Channel or conversation name within the server.
pub const CHANNEL_NAME: &'static str = "channel_name";

/// Platform message ID.
pub const MESSAGE_ID: &'static str = "message_id";

/// Reply target message ID for outbound reply threading.
pub const REPLY_TO_MESSAGE_ID: &'static str = "reply_to_message_id";

/// Quoted reply text preview from the message being replied to.
pub const REPLY_TO_TEXT: &'static str = "reply_to_text";

/// What adapters tell of a message, under distinct names.
pub type Metadata = Vec<(String, JsonValue)>;

/// Inbound message from any messaging platform.
#[derive(Debug, Clone)]
pub struct InboundMessage {
    pub id: String,
    pub source: String,
    pub adapter: Option<String>,
    pub conversation_id: String,
    pub sender_id: String,
    pub agent_id: Option<AgentId>,
    pub content: MessageContent,
    pub timestamp: Timestamp,
    pub metadata: Metadata,
    pub formatted_author: Option<String>,
}

/// A message for a channel that does not come from its platform.
#[derive(Debug, Clone)]
pub struct ChannelInjection {
    pub conversation_id: String,
    pub agent_id: String,
    pub message: InboundMessage,
}

impl InboundMessage {
    /// The adapter that received the message: the one it names, or the
    /// platform's own where it names none.
    pub open spec fn adapter_name(self) -> Seq<char> {
        match self.adapter {
            Some(name) => if trimmed(name@).len() > 0 {
                trimmed(name@)
            } else {
                self.source@
            },
            None => self.source@,
        }
    }

    /// The part of a named adapter behind the platform and a colon.
    pub open spec fn selector(self) -> Option<Seq<char>> {
        let name = self.adapter_name();
        if name != self.source@ && is_prefix(self.source@, name) && is_prefix(
            seq![':'],
            name.skip(self.source@.len() as int),
        ) && name.skip(self.source@.len() as int).skip(1).len() > 0 {
            Some(name.skip(self.source@.len() as int).skip(1))
        } else {
            None
        }
    }

    /// Runtime adapter key for routing outbound operations.
    pub fn adapter_key(&self) -> (key: &str)
        ensures
            key@ == self.adapter_name(),
    {
        match &self.adapter {
            Some(name) => {
                let value = trim(name.as_str());
                if value.is_empty() {
                    self.source.as_str()
                } else {
                    value
                }
            },
            None => self.source.as_str(),
        }
    }

    /// Platform-scoped adapter selector used by bindings: `None` for the default
    /// adapter and the name for a named one.
    pub fn adapter_selector(&self) -> (selector: Option<&str>)
        ensures
            match selector {
                Some(name) => self.selector() == Some(name@),
                None => self.selector() is None,
            },
    {
        let key = self.adapter_key();
        if text_eq(key, self.source.as_str()) {
            return None;
        }
        proof {
            reveal_strlit(":");
            assert(":"@ =~= seq![':']);
        }
        match strip_prefix(key, self.source.as_str()) {
            Some(suffix) => match strip_prefix(suffix, ":") {
                Some(name) => if name.is_empty() {
                    None
                } else {
                    Some(name)
                },
                None => None,
            },
            None => None,
        }
    }
}

/// A message whose adapter is the platform itself has no selector; one whose
/// adapter is the platform, a colon and a name is selected by that name.
pub proof fn law_selector_names_the_adapter(message: InboundMessage)
    ensures
        message.adapter_name() == message.source@ ==> message.selector() is None,
        message.selector() is Some ==> message.adapter_name() == message.source@ + seq![':']
            + message.selector()->0,
{
    let name = message.adapter_name();
    let size = message.source@.len() as int;
    if message.selector() is Some {
        let rest = name.skip(size);
        assert(rest.take(1) =~= seq![':']);
        assert(name =~= name.take(size) + rest);
        assert(rest =~= rest.take(1) + rest.skip(1));
        assert(name =~= message.source@ + seq![':'] + rest.skip(1));
    }
}

/// Message content variants.
#[derive(Debug, Clone)]
pub enum MessageContent {
    Text(String),
    Media { text: Option<String>, attachments: Vec<Attachment> },
    /// A platform interactive component was actioned.
    Interaction {
        action_id: String,
        block_id: Option<String>,
        values: Vec<String>,
        label: Option<String>,
        message_ts: Option<String>,
    },
}

/// The debug form of a list of texts: quoted, escaped, in square brackets.
pub uninterp spec fn debug_list(values: Seq<Seq<char>>) -> Seq<char>;

/// Prints a list of texts: `<Vec<String> as Debug>::fmt`.
#[verifier::external_body]
fn debug_list_text(values: &Vec<String>) -> (text: String)
    ensures
        text@ == debug_list(views(values@)),
{
    format!("{:?}", values)
}

impl MessageContent {
    /// The content in text.
    pub open spec fn form(self) -> Seq<char> {
        match self {
            MessageContent::Text(text) => text@,
            MessageContent::Media { text, .. } => match text {
                Some(value) => value@,
                None => "[media]"@,
            },
            MessageContent::Interaction { action_id, values, label, .. } => match label {
                Some(value) => "[interaction: "@ + action_id@ + " → "@ + value@ + "]"@,
                None => if values@.len() > 0 {
                    "[interaction: "@ + action_id@ + " → "@ + debug_list(views(values@)) + "]"@
                } else {
                    "[interaction: "@ + action_id@ + "]"@
                },
            },
        }
    }

    /// The content in text.
    pub fn display(&self) -> (text: String)
        ensures
            text@ == self.form(),
    {
        match self {
            MessageContent::Text(text) => text.clone(),
            MessageContent::Media { text, .. } => match text {
                Some(value) => value.clone(),
                None => "[media]".to_owned(),
            },
            MessageContent::Interaction { action_id, values, label, .. } => {
                let start = "[interaction: ".to_owned().concat(action_id.as_str());
                match label {
                    Some(value) => start.concat(" → ").concat(value.as_str()).concat("]"),
                    None => if values.len() > 0 {
                        start.concat(" → ").concat(debug_list_text(values).as_str()).concat("]")
                    } else {
                        start.concat("]")
                    },
                }
            },
        }
    }
}

/// File attachment metadata.
#[derive(Debug, Clone)]
pub struct Attachment {
    pub filename: String,
    pub mime_type: String,
    pub url: String,
    pub size_bytes: Option<u64>,
    /// Authorization header value for private URLs. It stays in the process.
    pub auth_header: Option<String>,
}

/// Outbound response to messaging platforms.
#[derive(Debug, Clone)]
pub enum OutboundResponse {
    Text(String),
    /// Create a new thread and send a reply in it.
    ThreadReply { thread_name: String, text: String },
    /// Send a file attachment to the user.
    File { filename: String, data: Vec<u8>, mime_type: String, caption: Option<String> },
    /// Add a reaction emoji to the triggering message.
    Reaction(String),
    /// Remove a reaction emoji from the triggering message.
    RemoveReaction(String),
    /// Send a message visible only to the triggering user.
    Ephemeral { text: String, user_id: String },
    /// Send a rich message with platform-specific formatting.
    RichMessage {
        text: String,
        blocks: Vec<JsonValue>,
        cards: Vec<Card>,
        interactive_elements: Vec<InteractiveElements>,
        poll: Option<Poll>,
    },
    /// Schedule a message to be posted at a Unix time in seconds.
    ScheduledMessage { text: String, post_at: i64 },
    StreamStart,
    StreamChunk(String),
    StreamEnd,
    Status(StatusUpdate),
}

/// A generic rich-formatted card.
#[derive(Debug, Clone)]
pub struct Card {
    pub title: Option<String>,
    pub description: Option<String>,
    pub color: Option<u32>,
    pub url: Option<String>,
    pub fields: Vec<CardField>,
    pub footer: Option<String>,
}

impl Default for Card {
    fn default() -> (card: Card)
        ensures
            card.title is None && card.description is None && card.color is None && card.url is None,
            card.fields@.len() == 0 && card.footer is None,
    {
        Card {
            title: None,
            description: None,
            color: None,
            url: None,
            fields: Vec::new(),
            footer: None,
        }
    }
}

/// A field within a card.
#[derive(Debug, Clone)]
pub struct CardField {
    pub name: String,
    pub value: String,
    pub inline: bool,
}

/// Container for interactive elements.
#[derive(Debug, Clone)]
pub enum InteractiveElements {
    Buttons { buttons: Vec<Button> },
    Select { select: SelectMenu },
}

/// A generic interactive button.
#[derive(Debug, Clone)]
pub struct Button {
    pub label: String,
    pub custom_id: Option<String>,
    pub style: ButtonStyle,
    pub url: Option<String>,
}

/// Styles for interactive buttons.
#[derive(Debug, Clone, Copy, PartialEq, Eq, Structural)]
pub enum ButtonStyle {
    Primary,
    Secondary,
    Success,
    Danger,
    Link,
}

/// A select menu option.
#[derive(Debug, Clone)]
pub struct SelectOption {
    pub label: String,
    pub value: String,
    pub description: Option<String>,
    pub emoji: Option<String>,
}

/// A generic select menu component.
#[derive(Debug, Clone)]
pub struct SelectMenu {
    pub custom_id: String,
    pub options: Vec<SelectOption>,
    pub placeholder: Option<String>,
}

/// A generic poll definition.
#[derive(Debug, Clone)]
pub struct Poll {
    pub question: String,
    pub answers: Vec<String>,
    pub allow_multiselect: bool,
    pub duration_hours: u32,
}

/// How long a poll runs where it does not say.
pub fn default_poll_duration() -> (hours: u32)
    ensures
        hours == 24,
{
    24
}

/// Status updates for messaging platforms.
#[derive(Debug, Clone)]
pub enum StatusUpdate {
    Thinking,
    /// Cancel the typing indicator.
    StopTyping,
    ToolStarted { tool_name: String },
    ToolCompleted { tool_name: String },
    BranchStarted { branch_id: BranchId },
    WorkerStarted { worker_id: WorkerId, task: String },
    WorkerCompleted { worker_id: WorkerId, result: String },
}

/// A message without an adapter, or with one of nothing but white space, goes through
/// its platform; any other goes through the adapter that it names, without the white
/// space around it.
pub proof fn law_named_adapter_is_used(message: InboundMessage, name: String)
    ensures
        message.adapter is None ==> message.adapter_name() == message.source@,
        message.adapter == Some(name) && trimmed(name@).len() > 0 ==> message.adapter_name() == trimmed(
            name@,
        ),
        message.adapter == Some(name) && trimmed(name@).len() == 0 ==> message.adapter_name()
            == message.source@,
{
}

/// An adapter named after its platform, a colon and a name is selected by the name.
pub proof fn law_named_adapter_is_selected(message: InboundMessage, name: Seq<char>)
    requires
        message.adapter_name() == message.source@ + seq![':'] + name,
        name.len() > 0,
    ensures
        message.selector() == Some(name),
{
    let key = message.adapter_name();
    let size = message.source@.len() as int;
    assert(key.take(size) =~= message.source@);
    let rest = key.skip(size);
    assert(rest =~= seq![':'] + name);
    assert(rest.take(1) =~= seq![':']);
    assert(rest.skip(1) =~= name);
    assert(key.len() != message.source@.len());
}

/// The words of a message are shown as they are, with or without media; media
/// without words are shown as such, and an interaction with what was done and, where
/// there is one, its label.
pub proof fn law_content_is_shown(content: MessageContent, words: String)
    ensures
        content == MessageContent::Text(words) ==> content.form() == words@,
        (content matches MessageContent::Media { text, .. } && text == Some(words)) ==> content.form()
            == words@,
        (content matches MessageContent::Media { text, .. } && text is None) ==> content.form()
            == "[media]"@,
        content matches MessageContent::Interaction { action_id, label, .. } ==> label == Some(words)
            ==> content.form() == "[interaction: "@ + action_id@ + " → "@ + words@ + "]"@,
        content matches MessageContent::Interaction { action_id, label, values, .. } ==> label is None
            && values@.len() == 0 ==> content.form() == "[interaction: "@ + action_id@ + "]"@,
{
}

} // verus!
