//! The prompt hook of channels, branches and workers: it watches what a model
//! does, ends prompts early, and nudges a worker that answers without using its
//! tools.
//!
//! The hook decides; it hands back the event to send, if there is one. Scanning
//! for secrets, scrubbing and capping are done before it is asked.

use crate::agent::message::{AssistantContent, Message, PromptError, UserContent};
use crate::events::{ProcessEvent, ProcessId, ProcessType};
use crate::ids::{AgentId, ChannelId};
use crate::text::{
    clone_option, is_middle, is_prefix, is_white_space, law_blank_is_white_space,
    law_trimmed_is_the_middle, starts_with, text_eq, trim, trimmed,
};
use vstd::prelude::*;

verus! {

/// Prompt used to nudge tool-first behavior.
pub const TOOL_NUDGE_PROMPT: &'static str = "Please proceed and use the available tools.";

/// Cancellation reason used internally for tool nudge retries.
pub const TOOL_NUDGE_REASON: &'static str = "spacebot_tool_nudge_retry";

/// Maximum nudge retries per prompt request.
pub const TOOL_NUDGE_MAX_RETRIES: usize = 2;

/// Controls whether hook-driven tool nudge retries are enabled.
#[derive(Debug, Clone, Copy, PartialEq, Eq, Structural)]
pub enum ToolNudgePolicy {
    Enabled,
    Disabled,
}

impl ToolNudgePolicy {
    /// Default policy by process type: only workers are nudged.
    pub fn for_process(process_type: ProcessType) -> (policy: ToolNudgePolicy)
        ensures
            policy == if process_type == ProcessType::Worker {
                ToolNudgePolicy::Enabled
            } else {
                ToolNudgePolicy::Disabled
            },
    {
        match process_type {
            ProcessType::Worker => ToolNudgePolicy::Enabled,
            _ => ToolNudgePolicy::Disabled,
        }
    }

    pub fn is_enabled(self) -> (enabled: bool)
        ensures
            enabled == (self == ToolNudgePolicy::Enabled),
    {
        match self {
            ToolNudgePolicy::Enabled => true,
            ToolNudgePolicy::Disabled => false,
        }
    }
}

/// What a hook does to the prompt in progress.
#[derive(Debug, Clone, PartialEq)]
pub enum HookAction {
    Continue,
    Terminate { reason: String },
}

/// What a hook does to a tool call.
#[derive(Debug, Clone, PartialEq)]
pub enum ToolCallHookAction {
    Continue,
    Skip { reason: String },
}

pub open spec fn terminates(action: HookAction, reason: Seq<char>) -> bool {
    action is Terminate && action->reason@ == reason
}

/// Hook for observing agent behavior.
#[derive(Debug, Clone)]
pub struct SpacebotHook {
    pub agent_id: AgentId,
    pub process_id: ProcessId,
    pub process_type: ProcessType,
    pub channel_id: Option<ChannelId>,
    pub tool_nudge_policy: ToolNudgePolicy,
    /// Completion calls since the last reset.
    pub completion_calls: usize,
    /// Whether a tool was called since the last reset.
    pub saw_tool_call: bool,
    /// Whether the prompt in progress may be nudged.
    pub nudge_request_active: bool,
}

/// Whether a response asks for a tool.
pub open spec fn calls_tool(response: Seq<AssistantContent>) -> bool {
    exists|i: int| 0 <= i < response.len() && #[trigger] response[i] is ToolCall
}

/// Whether a response says something.
pub open spec fn says_something(response: Seq<AssistantContent>) -> bool {
    exists|i: int|
        0 <= i < response.len() && #[trigger] response[i] is Text && trimmed(
            response[i]->Text_0@,
        ).len() > 0
}

/// A number of calls with one more, from zero on again where it is full.
pub open spec fn one_more(calls: usize) -> usize {
    if calls == usize::MAX {
        0
    } else {
        (calls + 1) as usize
    }
}

impl SpacebotHook {
    /// Whether a response is answered with a nudge: early, without a tool call so
    /// far, and with text only.
    pub open spec fn nudges(self, response: Seq<AssistantContent>) -> bool {
        &&& self.tool_nudge_policy == ToolNudgePolicy::Enabled
        &&& self.nudge_request_active
        &&& 1 <= self.completion_calls <= TOOL_NUDGE_MAX_RETRIES
        &&& !self.saw_tool_call
        &&& !calls_tool(response)
        &&& says_something(response)
    }

    /// Create a new hook.
    pub fn new(
        agent_id: AgentId,
        process_id: ProcessId,
        process_type: ProcessType,
        channel_id: Option<ChannelId>,
    ) -> (hook: SpacebotHook)
        ensures
            hook.agent_id == agent_id,
            hook.process_id == process_id,
            hook.process_type == process_type,
            hook.channel_id == channel_id,
            hook.tool_nudge_policy == if process_type == ProcessType::Worker {
                ToolNudgePolicy::Enabled
            } else {
                ToolNudgePolicy::Disabled
            },
            hook.completion_calls == 0,
            !hook.saw_tool_call,
            !hook.nudge_request_active,
    {
        SpacebotHook {
            agent_id,
            process_id,
            process_type,
            channel_id,
            tool_nudge_policy: ToolNudgePolicy::for_process(process_type),
            completion_calls: 0,
            saw_tool_call: false,
            nudge_request_active: false,
        }
    }

    /// Override the default process-scoped nudge policy.
    pub fn with_tool_nudge_policy(self, policy: ToolNudgePolicy) -> (hook: SpacebotHook)
        ensures
            hook == (SpacebotHook { tool_nudge_policy: policy, ..self }),
    {
        let mut hook = self;
        hook.tool_nudge_policy = policy;
        hook
    }

    /// Return the current tool nudge policy for this hook.
    pub fn tool_nudge_policy(&self) -> (policy: ToolNudgePolicy)
        ensures
            policy == self.tool_nudge_policy,
    {
        self.tool_nudge_policy
    }

    /// Reset per-prompt tool nudging state.
    pub fn reset_tool_nudge_state(&mut self)
        ensures
            *final(self) == (SpacebotHook {
                completion_calls: 0,
                saw_tool_call: false,
                ..*old(self)
            }),
    {
        self.completion_calls = 0;
        self.saw_tool_call = false;
    }

    pub fn set_tool_nudge_request_active(&mut self, active: bool)
        ensures
            *final(self) == (SpacebotHook { nudge_request_active: active, ..*old(self) }),
    {
        self.nudge_request_active = active;
    }

    /// Return true if a cancellation reason indicates a tool nudge retry.
    pub fn is_tool_nudge_reason(reason: &str) -> (result: bool)
        ensures
            result == (reason@ == TOOL_NUDGE_REASON@),
    {
        text_eq(reason, TOOL_NUDGE_REASON)
    }

    /// A completion is about to be asked for.
    pub fn on_completion_call(&mut self) -> (action: HookAction)
        ensures
            action is Continue,
            *final(self) == (SpacebotHook {
                completion_calls: if old(self).tool_nudge_policy == ToolNudgePolicy::Enabled {
                    one_more(old(self).completion_calls)
                } else {
                    old(self).completion_calls
                },
                ..*old(self)
            }),
    {
        if self.tool_nudge_policy.is_enabled() {
            if self.completion_calls == usize::MAX {
                self.completion_calls = 0;
            } else {
                self.completion_calls = self.completion_calls + 1;
            }
        }
        HookAction::Continue
    }

    fn should_nudge_tool_usage(&self, response: &Vec<AssistantContent>) -> (nudge: bool)
        ensures
            nudge == self.nudges(response@),
    {
        if !self.tool_nudge_policy.is_enabled() || !self.nudge_request_active {
            return false;
        }
        if self.completion_calls == 0 || self.completion_calls > TOOL_NUDGE_MAX_RETRIES {
            return false;
        }
        if self.saw_tool_call {
            return false;
        }
        let mut says = false;
        let mut i: usize = 0;
        while i < response.len()
            invariant
                i <= response.len(),
                forall|k: int| 0 <= k < i ==> !(#[trigger] response@[k] is ToolCall),
                says <==> exists|k: int|
                    0 <= k < i && #[trigger] response@[k] is Text && trimmed(
                        response@[k]->Text_0@,
                    ).len() > 0,
            decreases response.len() - i,
        {
            match &response[i] {
                AssistantContent::ToolCall(_) => {
                    assert(response@[i as int] is ToolCall);
                    return false;
                },
                AssistantContent::Text(text) => {
                    if !trim(text.as_str()).is_empty() {
                        assert(response@[i as int] is Text);
                        says = true;
                    }
                },
                AssistantContent::Other(_) => {},
            }
            i = i + 1;
        }
        says
    }

    /// A completion came.
    pub fn on_completion_response(&self, response: &Vec<AssistantContent>) -> (action: HookAction)
        ensures
            if self.nudges(response@) {
                terminates(action, TOOL_NUDGE_REASON@)
            } else {
                action is Continue
            },
    {
        if self.should_nudge_tool_usage(response) {
            HookAction::Terminate { reason: TOOL_NUDGE_REASON.to_owned() }
        } else {
            HookAction::Continue
        }
    }

    /// A piece of text came. A channel tells it to whoever listens.
    pub fn on_text_delta(&self, text_delta: &str, aggregated_text: &str) -> (result: (
        HookAction,
        Option<ProcessEvent>,
    ))
        ensures
            result.0 is Continue,
            result.1 is Some <==> self.process_type == ProcessType::Channel && self.channel_id
                is Some,
            result.1 is Some ==> (result.1->0 matches ProcessEvent::TextDelta {
                agent_id,
                process_id,
                channel_id,
                text_delta: delta,
                aggregated_text: whole,
            } && agent_id == self.agent_id && process_id == self.process_id && channel_id
                == self.channel_id && delta@ == text_delta@ && whole@ == aggregated_text@),
    {
        let is_channel = match self.process_type {
            ProcessType::Channel => true,
            _ => false,
        };
        if is_channel && self.channel_id.is_some() {
            (
                HookAction::Continue,
                Some(
                    ProcessEvent::TextDelta {
                        agent_id: self.agent_id.clone(),
                        process_id: self.process_id.copied(),
                        channel_id: clone_option(&self.channel_id),
                        text_delta: text_delta.to_owned(),
                        aggregated_text: aggregated_text.to_owned(),
                    },
                ),
            )
        } else {
            (HookAction::Continue, None)
        }
    }

    /// A tool is about to run. `leak` is the secret that was found in its
    /// arguments, if any; `capped_args` are the arguments cut for the event. A
    /// channel's reply that holds a secret is not made.
    pub fn on_tool_call(&mut self, tool_name: &str, leak: Option<&str>, capped_args: String) -> (result: (
        ToolCallHookAction,
        Option<ProcessEvent>,
    ))
        ensures
            *final(self) == (SpacebotHook { saw_tool_call: true, ..*old(self) }),
            if old(self).process_type == ProcessType::Channel && tool_name@ == "reply"@ && leak
                is Some {
                result.1 is None && result.0 is Skip && result.0->reason@
                    == "Reply blocked: content contained a secret."@
            } else {
                &&& result.0 is Continue
                &&& result.1 matches Some(
                    ProcessEvent::ToolStarted {
                        agent_id,
                        process_id,
                        channel_id,
                        tool_name: name,
                        args,
                    },
                ) && agent_id == old(self).agent_id && process_id == old(self).process_id
                    && channel_id == old(self).channel_id && name@ == tool_name@ && args
                    == capped_args
            },
    {
        self.saw_tool_call = true;
        let is_channel = match self.process_type {
            ProcessType::Channel => true,
            _ => false,
        };
        if is_channel && text_eq(tool_name, "reply") && leak.is_some() {
            return (
                ToolCallHookAction::Skip {
                    reason: "Reply blocked: content contained a secret.".to_owned(),
                },
                None,
            );
        }
        (
            ToolCallHookAction::Continue,
            Some(
                ProcessEvent::ToolStarted {
                    agent_id: self.agent_id.clone(),
                    process_id: self.process_id.copied(),
                    channel_id: clone_option(&self.channel_id),
                    tool_name: tool_name.to_owned(),
                    args: capped_args,
                },
            ),
        )
    }

    /// Apply shared safety checks for tool output, where `leak` is the secret that
    /// was found in it, if any. Workers and branches cannot speak to users, so
    /// they go on; every other process ends.
    pub fn guard_tool_result(&self, leak: Option<&str>) -> (action: HookAction)
        ensures
            if leak is Some && self.process_type != ProcessType::Worker && self.process_type
                != ProcessType::Branch {
                terminates(
                    action,
                    "Tool output contained a secret. Agent terminated to prevent exfiltration."@,
                )
            } else {
                action is Continue
            },
    {
        if leak.is_some() {
            match self.process_type {
                ProcessType::Worker => {},
                ProcessType::Branch => {},
                _ => {
                    return HookAction::Terminate {
                        reason: "Tool output contained a secret. Agent terminated to prevent exfiltration.".to_owned(),
                    };
                },
            }
        }
        HookAction::Continue
    }

    /// The event of a tool that has run, with its result cut for the event.
    pub fn emit_tool_completed_event_from_capped(&self, tool_name: &str, capped_result: String) -> (event: ProcessEvent)
        ensures
            event matches ProcessEvent::ToolCompleted {
                agent_id,
                process_id,
                channel_id,
                tool_name: name,
                result,
            } && agent_id == self.agent_id && process_id == self.process_id && channel_id
                == self.channel_id && name@ == tool_name@ && result == capped_result,
    {
        ProcessEvent::ToolCompleted {
            agent_id: self.agent_id.clone(),
            process_id: self.process_id.copied(),
            channel_id: clone_option(&self.channel_id),
            tool_name: tool_name.to_owned(),
            result: capped_result,
        }
    }

    /// A tool has run. `leak` is the secret that was found in its result, if any;
    /// `capped` is the result cut for the event and `scrubbed` the same without
    /// secrets. What workers and branches tell is scrubbed. A channel's turn ends
    /// with its reply.
    pub fn on_tool_result(
        &self,
        tool_name: &str,
        leak: Option<&str>,
        capped: String,
        scrubbed: String,
    ) -> (result: (HookAction, Option<ProcessEvent>))
        ensures
            ({
                let internal = self.process_type == ProcessType::Worker || self.process_type
                    == ProcessType::Branch;
                if leak is Some && !internal {
                    &&& terminates(
                        result.0,
                        "Tool output contained a secret. Agent terminated to prevent exfiltration."@,
                    )
                    &&& result.1 is None
                } else {
                    &&& if self.process_type == ProcessType::Channel && tool_name@ == "reply"@ {
                        terminates(result.0, "reply delivered"@)
                    } else {
                        result.0 is Continue
                    }
                    &&& result.1 matches Some(
                        ProcessEvent::ToolCompleted {
                            agent_id,
                            process_id,
                            channel_id,
                            tool_name: name,
                            result: shown,
                        },
                    ) && agent_id == self.agent_id && process_id == self.process_id && channel_id
                        == self.channel_id && name@ == tool_name@ && shown == if internal {
                        scrubbed
                    } else {
                        capped
                    }
                }
            }),
    {
        let guard = self.guard_tool_result(leak);
        match guard {
            HookAction::Continue => {},
            HookAction::Terminate { reason } => {
                return (HookAction::Terminate { reason }, None);
            },
        }
        let internal = match self.process_type {
            ProcessType::Worker => true,
            ProcessType::Branch => true,
            _ => false,
        };
        let shown = if internal {
            scrubbed
        } else {
            capped
        };
        let event = self.emit_tool_completed_event_from_capped(tool_name, shown);
        let is_channel = match self.process_type {
            ProcessType::Channel => true,
            _ => false,
        };
        if is_channel && text_eq(tool_name, "reply") {
            (HookAction::Terminate { reason: "reply delivered".to_owned() }, Some(event))
        } else {
            (HookAction::Continue, Some(event))
        }
    }

    /// The event of a status update.
    pub fn send_status(&self, status: String) -> (event: ProcessEvent)
        ensures
            event matches ProcessEvent::StatusUpdate { agent_id, process_id, status: told }
                && agent_id == self.agent_id && process_id == self.process_id && told == status,
    {
        ProcessEvent::StatusUpdate {
            agent_id: self.agent_id.clone(),
            process_id: self.process_id.copied(),
            status,
        }
    }

    /// A prompt begins that is not nudged.
    pub fn begin_once(&mut self)
        ensures
            *final(self) == (SpacebotHook {
                completion_calls: 0,
                saw_tool_call: false,
                nudge_request_active: false,
                ..*old(self)
            }),
    {
        self.reset_tool_nudge_state();
        self.set_tool_nudge_request_active(false);
    }
}

/// In which form a secret was found, told without any part of it.
pub open spec fn leak_word(leak: Seq<char>) -> Seq<char> {
    if is_prefix("url-encoded:"@, leak) {
        "url-encoded"@
    } else if is_prefix("base64-encoded:"@, leak) {
        "base64-encoded"@
    } else if is_prefix("hex-encoded:"@, leak) {
        "hex-encoded"@
    } else {
        "plaintext"@
    }
}

/// In which form a secret was found, told without any part of it.
pub fn leak_kind(leak: &str) -> (kind: &'static str)
    ensures
        kind@ == leak_word(leak@),
{
    if starts_with(leak, "url-encoded:") {
        "url-encoded"
    } else if starts_with(leak, "base64-encoded:") {
        "base64-encoded"
    } else if starts_with(leak, "hex-encoded:") {
        "hex-encoded"
    } else {
        "plaintext"
    }
}

/// What is left of a history after an attempt that is tried again: nothing of an
/// attempt that was a nudge itself, and the user's prompt of the first attempt.
pub open spec fn pruned_for_retry(history: Seq<Message>, len_before: int, nudged: bool) -> Seq<Message> {
    if history.len() <= len_before {
        history
    } else if !nudged && history[len_before] is User {
        history.take(len_before + 1)
    } else {
        history.take(len_before)
    }
}

/// Cuts a history back for another attempt.
pub fn prune_tool_nudge_retry_history(
    history: &mut Vec<Message>,
    history_len_before_attempt: usize,
    using_tool_nudge_prompt: bool,
)
    ensures
        final(history)@ == pruned_for_retry(
            old(history)@,
            history_len_before_attempt as int,
            using_tool_nudge_prompt,
        ),
{
    if history.len() <= history_len_before_attempt {
        return;
    }
    let keeps_prompt = if using_tool_nudge_prompt {
        false
    } else {
        match &history[history_len_before_attempt] {
            Message::User { .. } => true,
            _ => false,
        }
    };
    if keeps_prompt {
        history.truncate(history_len_before_attempt + 1);
        assert(history@ =~= old(history)@.take(history_len_before_attempt + 1));
    } else {
        history.truncate(history_len_before_attempt);
        assert(history@ =~= old(history)@.take(history_len_before_attempt as int));
    }
}

/// Whether a message is a nudge.
pub open spec fn is_nudge(message: Message) -> bool {
    match message {
        Message::User { content } => exists|i: int|
            0 <= i < content@.len() && #[trigger] content@[i] is Text && trimmed(
                content@[i]->Text_0@,
            ) == TOOL_NUDGE_PROMPT@,
        _ => false,
    }
}

/// What is left of a history after an attempt that succeeded: the nudge is taken
/// out.
pub open spec fn pruned_for_success(history: Seq<Message>, len_before: int, nudged: bool) -> Seq<Message> {
    if nudged && len_before < history.len() && is_nudge(history[len_before]) {
        history.remove(len_before)
    } else {
        history
    }
}

fn is_nudge_message(message: &Message) -> (result: bool)
    ensures
        result == is_nudge(*message),
{
    match message {
        Message::User { content } => {
            let mut i: usize = 0;
            while i < content.len()
                invariant
                    i <= content.len(),
                    *message matches Message::User { content: inner } && inner == *content,
                    forall|k: int|
                        0 <= k < i ==> !(#[trigger] content@[k] is Text && trimmed(
                            content@[k]->Text_0@,
                        ) == TOOL_NUDGE_PROMPT@),
                decreases content.len() - i,
            {
                match &content[i] {
                    UserContent::Text(text) => {
                        if text_eq(trim(text.as_str()), TOOL_NUDGE_PROMPT) {
                            assert(content@[i as int] is Text);
                            return true;
                        }
                    },
                    _ => {},
                }
                i = i + 1;
            }
            false
        },
        _ => false,
    }
}

/// Takes the nudge out of a history after it worked.
pub fn prune_successful_tool_nudge_prompt(
    history: &mut Vec<Message>,
    history_len_before_attempt: usize,
    using_tool_nudge_prompt: bool,
)
    ensures
        final(history)@ == pruned_for_success(
            old(history)@,
            history_len_before_attempt as int,
            using_tool_nudge_prompt,
        ),
{
    if using_tool_nudge_prompt && history_len_before_attempt < history.len() && is_nudge_message(
        &history[history_len_before_attempt],
    ) {
        let _nudge = history.remove(history_len_before_attempt);
    }
}

/// How far the attempts at one prompt have come.
#[derive(Debug, Clone, Copy, PartialEq, Eq, Structural)]
pub struct NudgeRetry {
    /// Nudges so far.
    pub attempts: usize,
    /// Whether the next attempt is a nudge.
    pub using_tool_nudge_prompt: bool,
}

/// What to do after an attempt.
#[derive(Debug, Clone, Copy, PartialEq, Eq, Structural)]
pub enum RetryStep {
    /// Prompt again, with the nudge.
    Again,
    /// Hand the result of the attempt to the caller.
    Done,
}

/// Whether an attempt is followed by another.
pub open spec fn retries(result: Result<String, PromptError>, attempts: int) -> bool {
    result matches Err(PromptError::PromptCancelled { reason }) && reason@ == TOOL_NUDGE_REASON@
        && attempts < TOOL_NUDGE_MAX_RETRIES
}

impl NudgeRetry {
    /// The attempts at one prompt begin.
    pub fn start(hook: &mut SpacebotHook) -> (retry: NudgeRetry)
        ensures
            retry.attempts == 0,
            !retry.using_tool_nudge_prompt,
            *final(hook) == (SpacebotHook {
                completion_calls: 0,
                saw_tool_call: false,
                nudge_request_active: true,
                ..*old(hook)
            }),
    {
        hook.reset_tool_nudge_state();
        hook.set_tool_nudge_request_active(true);
        NudgeRetry { attempts: 0, using_tool_nudge_prompt: false }
    }

    /// What to prompt with next.
    pub fn next_prompt<'a>(&self, prompt: &'a str) -> (next: &'a str)
        ensures
            next@ == if self.using_tool_nudge_prompt {
                TOOL_NUDGE_PROMPT@
            } else {
                prompt@
            },
    {
        if self.using_tool_nudge_prompt {
            TOOL_NUDGE_PROMPT
        } else {
            prompt
        }
    }

    /// An attempt has ended. A bounded number of attempts that were ended for a
    /// nudge are tried again; anything else is the result, whatever it is.
    pub fn after_attempt(
        &mut self,
        hook: &mut SpacebotHook,
        history: &mut Vec<Message>,
        history_len_before_attempt: usize,
        result: &Result<String, PromptError>,
    ) -> (step: RetryStep)
        ensures
            if retries(*result, old(self).attempts as int) {
                &&& step == RetryStep::Again
                &&& final(self).attempts == old(self).attempts + 1
                &&& final(self).using_tool_nudge_prompt
                &&& *final(hook) == *old(hook)
                &&& final(history)@ == pruned_for_retry(
                    old(history)@,
                    history_len_before_attempt as int,
                    old(self).using_tool_nudge_prompt,
                )
            } else {
                &&& step == RetryStep::Done
                &&& *final(self) == *old(self)
                &&& *final(hook) == (SpacebotHook { nudge_request_active: false, ..*old(hook) })
                &&& final(history)@ == if result is Ok {
                    pruned_for_success(
                        old(history)@,
                        history_len_before_attempt as int,
                        old(self).using_tool_nudge_prompt,
                    )
                } else {
                    old(history)@
                }
            },
    {
        let again = match result {
            Err(PromptError::PromptCancelled { reason }) => SpacebotHook::is_tool_nudge_reason(
                reason.as_str(),
            ) && self.attempts < TOOL_NUDGE_MAX_RETRIES,
            _ => false,
        };
        if again {
            prune_tool_nudge_retry_history(
                history,
                history_len_before_attempt,
                self.using_tool_nudge_prompt,
            );
            self.attempts = self.attempts + 1;
            self.using_tool_nudge_prompt = true;
            RetryStep::Again
        } else {
            if result.is_ok() {
                prune_successful_tool_nudge_prompt(
                    history,
                    history_len_before_attempt,
                    self.using_tool_nudge_prompt,
                );
            }
            hook.set_tool_nudge_request_active(false);
            RetryStep::Done
        }
    }
}

/// No prompt is nudged more than twice, whatever the attempts give: a count that
/// is at the bound is not raised.
pub proof fn law_nudges_are_bounded(result: Result<String, PromptError>, attempts: int)
    requires
        0 <= attempts <= TOOL_NUDGE_MAX_RETRIES,
    ensures
        retries(result, attempts) ==> attempts + 1 <= TOOL_NUDGE_MAX_RETRIES,
        attempts == TOOL_NUDGE_MAX_RETRIES ==> !retries(result, attempts),
{
}

/// A response is nudged only within the first two completion calls of a prompt
/// that may be nudged, and never after a tool was called.
pub proof fn law_nudges_only_early(hook: SpacebotHook, response: Seq<AssistantContent>)
    ensures
        hook.nudges(response) ==> 1 <= hook.completion_calls <= 2,
        hook.saw_tool_call ==> !hook.nudges(response),
        calls_tool(response) ==> !hook.nudges(response),
        hook.tool_nudge_policy == ToolNudgePolicy::Disabled ==> !hook.nudges(response),
{
}

/// Pruning never touches what was there before the attempt.
pub proof fn law_pruning_keeps_the_past(history: Seq<Message>, len_before: int, nudged: bool)
    requires
        0 <= len_before <= history.len(),
    ensures
        pruned_for_retry(history, len_before, nudged).take(len_before) == history.take(len_before),
        pruned_for_success(history, len_before, nudged).take(len_before) == history.take(
            len_before,
        ),
        nudged ==> pruned_for_retry(history, len_before, nudged) == history.take(len_before),
        pruned_for_retry(history, len_before, nudged).len() <= len_before + 1,
{
    assert(pruned_for_retry(history, len_before, nudged).take(len_before) =~= history.take(
        len_before,
    ));
    assert(pruned_for_success(history, len_before, nudged).take(len_before) =~= history.take(
        len_before,
    ));
    assert(history.take(history.len() as int) =~= history);
}

/// A worker that may be nudged and answers with text, wherever in its response that
/// stands, without having called a tool is nudged, the first two times. Nobody else
/// ever is.
pub proof fn law_answer_without_tools_is_nudged(
    hook: SpacebotHook,
    response: Seq<AssistantContent>,
    at: int,
    character: int,
)
    requires
        0 <= at < response.len(),
        response[at] is Text,
        0 <= character < response[at]->Text_0@.len(),
        !is_white_space(response[at]->Text_0@[character]),
        forall|i: int| 0 <= i < response.len() ==> !(#[trigger] response[i] is ToolCall),
    ensures
        hook.nudges(response) <==> hook.tool_nudge_policy == ToolNudgePolicy::Enabled
            && hook.nudge_request_active && !hook.saw_tool_call && (hook.completion_calls == 1
            || hook.completion_calls == 2),
{
    law_blank_is_white_space(response[at]->Text_0@);
    assert(response[at] is Text && trimmed(response[at]->Text_0@).len() > 0);
}

/// A response in which nothing is said but white space is not nudged, and neither is
/// one that calls a tool anywhere.
pub proof fn law_silence_is_not_nudged(hook: SpacebotHook, response: Seq<AssistantContent>, at: int)
    requires
        0 <= at < response.len() && response[at] is ToolCall || forall|i: int|
            0 <= i < response.len() && #[trigger] response[i] is Text ==> forall|k: int|
                0 <= k < response[i]->Text_0@.len() ==> is_white_space(
                    #[trigger] response[i]->Text_0@[k],
                ),
    ensures
        !hook.nudges(response),
{
    if !(0 <= at < response.len() && response[at] is ToolCall) && says_something(response) {
        let i = choose|i: int|
            0 <= i < response.len() && #[trigger] response[i] is Text && trimmed(
                response[i]->Text_0@,
            ).len() > 0;
        law_blank_is_white_space(response[i]->Text_0@);
    }
}

/// An attempt is tried again just where it was ended for a nudge, the first two
/// times.
pub proof fn law_nudged_attempt_is_tried_again(result: Result<String, PromptError>, attempts: int)
    requires
        0 <= attempts,
    ensures
        retries(result, attempts) <==> attempts < 2 && (result matches Err(
            PromptError::PromptCancelled { reason },
        ) && reason@ == "spacebot_tool_nudge_retry"@),
{
}

/// Before another attempt the history is cut back to where the attempt began, but
/// for the user's prompt of the first one.
pub proof fn law_retry_keeps_the_prompt(history: Seq<Message>, len_before: int, nudged: bool)
    requires
        0 <= len_before < history.len(),
    ensures
        !nudged && history[len_before] is User ==> pruned_for_retry(history, len_before, nudged)
            == history.take(len_before).push(history[len_before]),
        nudged || history[len_before] is Assistant ==> pruned_for_retry(history, len_before, nudged)
            == history.take(len_before),
{
    assert(history.take(len_before + 1) =~= history.take(len_before).push(history[len_before]));
}

/// After a nudge that worked, the nudge goes out of the history, and nothing else
/// does.
pub proof fn law_nudge_leaves_no_trace(
    history: Seq<Message>,
    len_before: int,
    nudged: bool,
    item: int,
)
    requires
        0 <= len_before < history.len(),
        history[len_before] matches Message::User { content } && 0 <= item < content@.len()
            && content@[item] is Text && content@[item]->Text_0@
            == "Please proceed and use the available tools."@,
    ensures
        nudged ==> pruned_for_success(history, len_before, nudged) == history.take(len_before)
            + history.skip(len_before + 1),
        !nudged ==> pruned_for_success(history, len_before, nudged) == history,
{
    let prompt = "Please proceed and use the available tools."@;
    reveal_strlit("Please proceed and use the available tools.");
    lemma_trimmed_keeps(prompt);
    if let Message::User { content } = history[len_before] {
        assert(trimmed(content@[item]->Text_0@) == TOOL_NUDGE_PROMPT@);
        assert(content@[item] is Text);
    }
    assert(is_nudge(history[len_before]));
    assert(history.remove(len_before) =~= history.take(len_before) + history.skip(len_before + 1));
}

proof fn lemma_trimmed_keeps(text: Seq<char>)
    requires
        text.len() > 0,
        !is_white_space(text[0]),
        !is_white_space(text[text.len() - 1]),
    ensures
        trimmed(text) == text,
{
    law_trimmed_is_the_middle(text);
    let (start, end) = choose|start: int, end: int| #[trigger]
        is_middle(text, start, end) && trimmed(text) == text.subrange(start, end);
    assert(start == 0);
    assert(end == text.len());
    assert(text.subrange(0, text.len() as int) =~= text);
}

/// A message that says anything else at that place stays.
pub proof fn law_other_messages_stay(history: Seq<Message>, len_before: int, nudged: bool)
    requires
        0 <= len_before,
        len_before >= history.len() || history[len_before] is Assistant,
    ensures
        pruned_for_success(history, len_before, nudged) == history,
{
}

/// The form in which a secret was found is told by the mark before it, and nothing
/// of the secret is told.
pub proof fn law_leak_is_told_by_its_form(secret: Seq<char>)
    ensures
        leak_word("url-encoded:"@ + secret) == "url-encoded"@,
        leak_word("base64-encoded:"@ + secret) == "base64-encoded"@,
        leak_word("hex-encoded:"@ + secret) == "hex-encoded"@,
        (secret.len() > 0 ==> secret[0] != 'u' && secret[0] != 'b' && secret[0] != 'h') ==> leak_word(
            secret,
        ) == "plaintext"@,
{
    reveal_strlit("url-encoded:");
    reveal_strlit("base64-encoded:");
    reveal_strlit("hex-encoded:");
    let url = "url-encoded:"@ + secret;
    let base64 = "base64-encoded:"@ + secret;
    let hex = "hex-encoded:"@ + secret;
    assert(url.take(12) =~= "url-encoded:"@);
    assert(base64.take(15) =~= "base64-encoded:"@);
    assert(hex.take(12) =~= "hex-encoded:"@);
    assert(base64[0] == 'b' && hex[0] == 'h');
    assert(base64.take(12)[0] == 'b');
    assert(hex.take(12)[0] == 'h');
    if hex.len() >= 15 {
        assert(hex.take(15)[0] == 'h');
    }
    if secret.len() >= 12 {
        assert(secret.take(12)[0] == secret[0]);
    }
    if secret.len() >= 15 {
        assert(secret.take(15)[0] == secret[0]);
    }
    assert("url-encoded:"@[0] == 'u' && "base64-encoded:"@[0] == 'b' && "hex-encoded:"@[0] == 'h');
}

/// The calls are counted one by one, and from the highest number on anew.
pub proof fn law_calls_are_counted(calls: usize)
    ensures
        calls < usize::MAX ==> one_more(calls) == calls + 1,
        calls == usize::MAX ==> one_more(calls) == 0,
{
}

/// A secret in what a tool gave ends a prompt, and nothing is told of the tool,
/// unless it is one of a worker or a branch, whose results are scrubbed before they
/// are told. A channel's turn ends with its reply; all else goes on.
pub proof fn law_secrets_are_not_told(
    hook: &SpacebotHook,
    tool_name: &str,
    leak: Option<&str>,
    capped: String,
    scrubbed: String,
    result: (HookAction, Option<ProcessEvent>),
)
    requires
        call_ensures(
            SpacebotHook::on_tool_result,
            (hook, tool_name, leak, capped, scrubbed),
            result,
        ),
    ensures
        ({
            let inside = hook.process_type is Worker || hook.process_type is Branch;
            &&& leak is Some && !inside ==> result.0 is Terminate && result.1 is None
            &&& inside ==> result.0 is Continue && (result.1 matches Some(event) && event
                is ToolCompleted && event->ToolCompleted_result == scrubbed)
            &&& leak is None && !inside ==> (result.1 matches Some(event) && event is ToolCompleted
                && event->ToolCompleted_result == capped)
            &&& leak is None && hook.process_type is Channel && tool_name@ == "reply"@ ==> result.0
                is Terminate
            &&& leak is None && !(hook.process_type is Channel && tool_name@ == "reply"@) ==> result.0
                is Continue
        }),
{
}

} // verus!
