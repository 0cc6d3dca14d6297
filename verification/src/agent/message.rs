//! The messages of a conversation with a model.

use crate::json::JsonValue;
use vstd::prelude::*;

verus! {

/// A part of what the user's side says.
#[derive(Clone, Debug, PartialEq)]
pub enum UserContent {
    Text(String),
    /// What a tool that the model called gave back.
    ToolResult { id: String, content: String },
    /// Anything else, such as an image, in serialized form.
    Other(String),
}

/// A tool that the model asks for. Arguments that are not an object have no
/// members.
#[derive(Clone, Debug, PartialEq)]
pub struct ToolCall {
    pub id: String,
    pub name: String,
    pub arguments: Vec<(String, JsonValue)>,
}

/// A part of what the model says.
#[derive(Clone, Debug, PartialEq)]
pub enum AssistantContent {
    Text(String),
    ToolCall(ToolCall),
    /// Anything else, such as reasoning, in serialized form.
    Other(String),
}

/// A message of a conversation.
#[allow(inconsistent_fields)]
#[derive(Clone, Debug, PartialEq)]
pub enum Message {
    User { content: Vec<UserContent> },
    Assistant { id: Option<String>, content: Vec<AssistantContent> },
}

/// Why a prompt gave no answer.
#[derive(Clone, Debug, PartialEq)]
pub enum PromptError {
    /// The model used up its turns.
    MaxTurnsError,
    /// A hook ended the prompt.
    PromptCancelled { reason: String },
    /// The provider failed.
    CompletionError(String),
    /// A tool failed.
    ToolError(String),
}

/// Whether a message is the model saying one text and nothing else.
pub open spec fn is_assistant_text(message: Message, text: Seq<char>) -> bool {
    match message {
        Message::Assistant { id, content } => {
            &&& id is None
            &&& content@.len() == 1
            &&& content@[0] is Text
            &&& content@[0]->Text_0@ == text
        },
        _ => false,
    }
}

/// Whether a message is the user's side saying one text and nothing else.
pub open spec fn is_user_text_of(message: Message, text: Seq<char>) -> bool {
    match message {
        Message::User { content } => {
            &&& content@.len() == 1
            &&& content@[0] is Text
            &&& content@[0]->Text_0@ == text
        },
        _ => false,
    }
}

/// Whether a message asks for a tool.
pub open spec fn has_tool_call(message: Message) -> bool {
    match message {
        Message::Assistant { content, .. } => exists|i: int|
            0 <= i < content@.len() && #[trigger] content@[i] is ToolCall,
        _ => false,
    }
}

/// The model saying one text.
pub fn assistant_text(text: String) -> (message: Message)
    ensures
        is_assistant_text(message, text@),
{
    let mut content: Vec<AssistantContent> = Vec::new();
    content.push(AssistantContent::Text(text));
    Message::Assistant { id: None, content }
}

/// The user's side saying one text.
pub fn user_text(text: String) -> (message: Message)
    ensures
        is_user_text_of(message, text@),
{
    let mut content: Vec<UserContent> = Vec::new();
    content.push(UserContent::Text(text));
    Message::User { content }
}

} // verus!
